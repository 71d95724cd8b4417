//! A module containing code related to the KSMFileBuilder type, which allows for the creation of a
//! KSMFile with a builder-like interface.
//!
//! The builder's type parameter records which of the required argument section and debug
//! section, and at least one code section, have been added; `finish` is only offered once
//! all of them have been.
use vstd::prelude::*;

use std::marker::PhantomData;

use crate::ksm::sections::{ArgumentSection, CodeSection, DebugSection};
use crate::ksm::{code_view, KSMFile};

pub mod completeness;

use completeness::{Empty, WithArgSection, WithCodeSections, WithDebugSection, WithArgAndCode, WithArgAndDebug, WithCodeAndDebug, Complete};

verus! {

/// A struct designed to allow the creation of a KSMFile to be performed step-by-step in a builder
/// fashion. In order to call the .finish() method, which returns the completed KSMFile,
/// at least one argument section and one debug section must be added. Likewise, at least one code section
/// must be added, although remember:
///
/// KSM files to be correctly loaded by kOS without a cryptic error, **must** contain
/// at least one entry in the debug section, and a Function code section **first**, followed
/// by an Initialization code section, followed by a Main code section with at least **one**
/// instruction in it.
#[must_use]
#[derive(Debug)]
pub struct KSMFileBuilder<Completeness = Empty> {
    argument_section: Option<ArgumentSection>,
    code_sections: Vec<CodeSection>,
    debug_section: Option<DebugSection>,
    completeness: PhantomData<Completeness>,
}

impl<C> KSMFileBuilder<C> {
    /// The argument section added so far, if any.
    pub closed spec fn arg_section_view(&self) -> Option<ArgumentSection> {
        self.argument_section
    }

    /// The code sections added so far, in order.
    pub closed spec fn code_sections_view(&self) -> Seq<CodeSection> {
        self.code_sections@
    }

    /// The debug section added so far, if any.
    pub closed spec fn debug_section_view(&self) -> Option<DebugSection> {
        self.debug_section
    }
}

impl Default for KSMFileBuilder<Empty> {
    fn default() -> (r: Self)
        ensures
            r.arg_section_view() is None,
            r.code_sections_view() == Seq::<CodeSection>::empty(),
            r.debug_section_view() is None,
    {
        KSMFileBuilder::new()
    }
}

impl KSMFileBuilder {
    /// Creates a new empty KSMFileBuilder
    pub fn new() -> (r: Self)
        ensures
            r.arg_section_view() is None,
            r.code_sections_view() == Seq::<CodeSection>::empty(),
            r.debug_section_view() is None,
    {
        Self {
            argument_section: None,
            code_sections: Vec::new(),
            debug_section: None,
            completeness: PhantomData,
        }
    }
}

impl KSMFileBuilder<Empty> {
    /// Adds the required argument section to this KSMFileBuilder
    pub fn with_arg_section(self, arg_section: ArgumentSection) -> (r: KSMFileBuilder<WithArgSection>)
        ensures
            r.arg_section_view() == Some(arg_section),
            r.code_sections_view() == self.code_sections_view(),
            r.debug_section_view() == self.debug_section_view(),
    {
        KSMFileBuilder {
            argument_section: Some(arg_section),
            code_sections: self.code_sections,
            debug_section: self.debug_section,
            completeness: PhantomData,
        }
    }

    /// Adds the provided code section to this KSMFileBuilder. At least 3 code sections
    /// are required to have a well-formed KSM file.
    pub fn with_code_section(self, code_section: CodeSection) -> (r: KSMFileBuilder<WithCodeSections>)
        ensures
            r.arg_section_view() == self.arg_section_view(),
            r.code_sections_view() == self.code_sections_view().push(code_section),
            r.debug_section_view() == self.debug_section_view(),
    {
        let mut code_sections = self.code_sections;
        code_sections.push(code_section);
        KSMFileBuilder {
            argument_section: self.argument_section,
            code_sections,
            debug_section: self.debug_section,
            completeness: PhantomData,
        }
    }

    /// Adds all of the provided code sections to this KSMFileBuilder. At least 3 code sections
    /// are required to have a well-formed KSM file.
    pub fn with_code_sections(self, code_sections: Vec<CodeSection>) -> (r: KSMFileBuilder<WithCodeSections>)
        ensures
            r.arg_section_view() == self.arg_section_view(),
            r.code_sections_view() == self.code_sections_view() + code_sections@,
            r.debug_section_view() == self.debug_section_view(),
    {
        let mut all = self.code_sections;
        let mut code_sections = code_sections;
        all.append(&mut code_sections);
        KSMFileBuilder {
            argument_section: self.argument_section,
            code_sections: all,
            debug_section: self.debug_section,
            completeness: PhantomData,
        }
    }

    /// Adds the required debug section to this KSMFileBuilder
    pub fn with_debug_section(self, debug_section: DebugSection) -> (r: KSMFileBuilder<WithDebugSection>)
        ensures
            r.arg_section_view() == self.arg_section_view(),
            r.code_sections_view() == self.code_sections_view(),
            r.debug_section_view() == Some(debug_section),
    {
        KSMFileBuilder {
            argument_section: self.argument_section,
            code_sections: self.code_sections,
            debug_section: Some(debug_section),
            completeness: PhantomData,
        }
    }
}

impl KSMFileBuilder<WithArgSection> {
    /// Adds the provided code section to this KSMFileBuilder. At least 3 code sections
    /// are required to have a well-formed KSM file.
    pub fn with_code_section(self, code_section: CodeSection) -> (r: KSMFileBuilder<WithArgAndCode>)
        ensures
            r.arg_section_view() == self.arg_section_view(),
            r.code_sections_view() == self.code_sections_view().push(code_section),
            r.debug_section_view() == self.debug_section_view(),
    {
        let mut code_sections = self.code_sections;
        code_sections.push(code_section);
        KSMFileBuilder {
            argument_section: self.argument_section,
            code_sections,
            debug_section: self.debug_section,
            completeness: PhantomData,
        }
    }

    /// Adds all of the provided code sections to this KSMFileBuilder. At least 3 code sections
    /// are required to have a well-formed KSM file.
    pub fn with_code_sections(self, code_sections: Vec<CodeSection>) -> (r: KSMFileBuilder<WithArgAndCode>)
        ensures
            r.arg_section_view() == self.arg_section_view(),
            r.code_sections_view() == self.code_sections_view() + code_sections@,
            r.debug_section_view() == self.debug_section_view(),
    {
        let mut all = self.code_sections;
        let mut code_sections = code_sections;
        all.append(&mut code_sections);
        KSMFileBuilder {
            argument_section: self.argument_section,
            code_sections: all,
            debug_section: self.debug_section,
            completeness: PhantomData,
        }
    }

    /// Adds the required debug section to this KSMFileBuilder
    pub fn with_debug_section(self, debug_section: DebugSection) -> (r: KSMFileBuilder<WithArgAndDebug>)
        ensures
            r.arg_section_view() == self.arg_section_view(),
            r.code_sections_view() == self.code_sections_view(),
            r.debug_section_view() == Some(debug_section),
    {
        KSMFileBuilder {
            argument_section: self.argument_section,
            code_sections: self.code_sections,
            debug_section: Some(debug_section),
            completeness: PhantomData,
        }
    }
}

impl KSMFileBuilder<WithCodeSections> {
    /// Adds the required argument section to this KSMFileBuilder
    pub fn with_arg_section(self, arg_section: ArgumentSection) -> (r: KSMFileBuilder<WithArgAndCode>)
        ensures
            r.arg_section_view() == Some(arg_section),
            r.code_sections_view() == self.code_sections_view(),
            r.debug_section_view() == self.debug_section_view(),
    {
        KSMFileBuilder {
            argument_section: Some(arg_section),
            code_sections: self.code_sections,
            debug_section: self.debug_section,
            completeness: PhantomData,
        }
    }

    /// Adds the provided code section to this KSMFileBuilder. At least 3 code sections
    /// are required to have a well-formed KSM file.
    pub fn with_code_section(self, code_section: CodeSection) -> (r: KSMFileBuilder<WithCodeSections>)
        ensures
            r.arg_section_view() == self.arg_section_view(),
            r.code_sections_view() == self.code_sections_view().push(code_section),
            r.debug_section_view() == self.debug_section_view(),
    {
        let mut code_sections = self.code_sections;
        code_sections.push(code_section);
        KSMFileBuilder {
            argument_section: self.argument_section,
            code_sections,
            debug_section: self.debug_section,
            completeness: PhantomData,
        }
    }

    /// Adds all of the provided code sections to this KSMFileBuilder. At least 3 code sections
    /// are required to have a well-formed KSM file.
    pub fn with_code_sections(self, code_sections: Vec<CodeSection>) -> (r: KSMFileBuilder<WithCodeSections>)
        ensures
            r.arg_section_view() == self.arg_section_view(),
            r.code_sections_view() == self.code_sections_view() + code_sections@,
            r.debug_section_view() == self.debug_section_view(),
    {
        let mut all = self.code_sections;
        let mut code_sections = code_sections;
        all.append(&mut code_sections);
        KSMFileBuilder {
            argument_section: self.argument_section,
            code_sections: all,
            debug_section: self.debug_section,
            completeness: PhantomData,
        }
    }

    /// Adds the required debug section to this KSMFileBuilder
    pub fn with_debug_section(self, debug_section: DebugSection) -> (r: KSMFileBuilder<WithCodeAndDebug>)
        ensures
            r.arg_section_view() == self.arg_section_view(),
            r.code_sections_view() == self.code_sections_view(),
            r.debug_section_view() == Some(debug_section),
    {
        KSMFileBuilder {
            argument_section: self.argument_section,
            code_sections: self.code_sections,
            debug_section: Some(debug_section),
            completeness: PhantomData,
        }
    }
}

impl KSMFileBuilder<WithDebugSection> {
    /// Adds the required argument section to this KSMFileBuilder
    pub fn with_arg_section(self, arg_section: ArgumentSection) -> (r: KSMFileBuilder<WithArgAndDebug>)
        ensures
            r.arg_section_view() == Some(arg_section),
            r.code_sections_view() == self.code_sections_view(),
            r.debug_section_view() == self.debug_section_view(),
    {
        KSMFileBuilder {
            argument_section: Some(arg_section),
            code_sections: self.code_sections,
            debug_section: self.debug_section,
            completeness: PhantomData,
        }
    }

    /// Adds the provided code section to this KSMFileBuilder. At least 3 code sections
    /// are required to have a well-formed KSM file.
    pub fn with_code_section(self, code_section: CodeSection) -> (r: KSMFileBuilder<WithCodeAndDebug>)
        ensures
            r.arg_section_view() == self.arg_section_view(),
            r.code_sections_view() == self.code_sections_view().push(code_section),
            r.debug_section_view() == self.debug_section_view(),
    {
        let mut code_sections = self.code_sections;
        code_sections.push(code_section);
        KSMFileBuilder {
            argument_section: self.argument_section,
            code_sections,
            debug_section: self.debug_section,
            completeness: PhantomData,
        }
    }

    /// Adds all of the provided code sections to this KSMFileBuilder. At least 3 code sections
    /// are required to have a well-formed KSM file.
    pub fn with_code_sections(self, code_sections: Vec<CodeSection>) -> (r: KSMFileBuilder<WithCodeAndDebug>)
        ensures
            r.arg_section_view() == self.arg_section_view(),
            r.code_sections_view() == self.code_sections_view() + code_sections@,
            r.debug_section_view() == self.debug_section_view(),
    {
        let mut all = self.code_sections;
        let mut code_sections = code_sections;
        all.append(&mut code_sections);
        KSMFileBuilder {
            argument_section: self.argument_section,
            code_sections: all,
            debug_section: self.debug_section,
            completeness: PhantomData,
        }
    }
}

impl KSMFileBuilder<WithArgAndCode> {
    /// Adds the provided code section to this KSMFileBuilder. At least 3 code sections
    /// are required to have a well-formed KSM file.
    pub fn with_code_section(self, code_section: CodeSection) -> (r: KSMFileBuilder<WithArgAndCode>)
        ensures
            r.arg_section_view() == self.arg_section_view(),
            r.code_sections_view() == self.code_sections_view().push(code_section),
            r.debug_section_view() == self.debug_section_view(),
    {
        let mut code_sections = self.code_sections;
        code_sections.push(code_section);
        KSMFileBuilder {
            argument_section: self.argument_section,
            code_sections,
            debug_section: self.debug_section,
            completeness: PhantomData,
        }
    }

    /// Adds all of the provided code sections to this KSMFileBuilder. At least 3 code sections
    /// are required to have a well-formed KSM file.
    pub fn with_code_sections(self, code_sections: Vec<CodeSection>) -> (r: KSMFileBuilder<WithArgAndCode>)
        ensures
            r.arg_section_view() == self.arg_section_view(),
            r.code_sections_view() == self.code_sections_view() + code_sections@,
            r.debug_section_view() == self.debug_section_view(),
    {
        let mut all = self.code_sections;
        let mut code_sections = code_sections;
        all.append(&mut code_sections);
        KSMFileBuilder {
            argument_section: self.argument_section,
            code_sections: all,
            debug_section: self.debug_section,
            completeness: PhantomData,
        }
    }

    /// Adds the required debug section to this KSMFileBuilder
    pub fn with_debug_section(self, debug_section: DebugSection) -> (r: KSMFileBuilder<Complete>)
        ensures
            r.arg_section_view() == self.arg_section_view(),
            r.code_sections_view() == self.code_sections_view(),
            r.debug_section_view() == Some(debug_section),
    {
        KSMFileBuilder {
            argument_section: self.argument_section,
            code_sections: self.code_sections,
            debug_section: Some(debug_section),
            completeness: PhantomData,
        }
    }
}

impl KSMFileBuilder<WithArgAndDebug> {
    /// Adds the provided code section to this KSMFileBuilder. At least 3 code sections
    /// are required to have a well-formed KSM file.
    pub fn with_code_section(self, code_section: CodeSection) -> (r: KSMFileBuilder<Complete>)
        ensures
            r.arg_section_view() == self.arg_section_view(),
            r.code_sections_view() == self.code_sections_view().push(code_section),
            r.debug_section_view() == self.debug_section_view(),
    {
        let mut code_sections = self.code_sections;
        code_sections.push(code_section);
        KSMFileBuilder {
            argument_section: self.argument_section,
            code_sections,
            debug_section: self.debug_section,
            completeness: PhantomData,
        }
    }

    /// Adds all of the provided code sections to this KSMFileBuilder. At least 3 code sections
    /// are required to have a well-formed KSM file.
    pub fn with_code_sections(self, code_sections: Vec<CodeSection>) -> (r: KSMFileBuilder<Complete>)
        ensures
            r.arg_section_view() == self.arg_section_view(),
            r.code_sections_view() == self.code_sections_view() + code_sections@,
            r.debug_section_view() == self.debug_section_view(),
    {
        let mut all = self.code_sections;
        let mut code_sections = code_sections;
        all.append(&mut code_sections);
        KSMFileBuilder {
            argument_section: self.argument_section,
            code_sections: all,
            debug_section: self.debug_section,
            completeness: PhantomData,
        }
    }
}

impl KSMFileBuilder<WithCodeAndDebug> {
    /// Adds the required argument section to this KSMFileBuilder
    pub fn with_arg_section(self, arg_section: ArgumentSection) -> (r: KSMFileBuilder<Complete>)
        ensures
            r.arg_section_view() == Some(arg_section),
            r.code_sections_view() == self.code_sections_view(),
            r.debug_section_view() == self.debug_section_view(),
    {
        KSMFileBuilder {
            argument_section: Some(arg_section),
            code_sections: self.code_sections,
            debug_section: self.debug_section,
            completeness: PhantomData,
        }
    }

    /// Adds the provided code section to this KSMFileBuilder. At least 3 code sections
    /// are required to have a well-formed KSM file.
    pub fn with_code_section(self, code_section: CodeSection) -> (r: KSMFileBuilder<WithCodeAndDebug>)
        ensures
            r.arg_section_view() == self.arg_section_view(),
            r.code_sections_view() == self.code_sections_view().push(code_section),
            r.debug_section_view() == self.debug_section_view(),
    {
        let mut code_sections = self.code_sections;
        code_sections.push(code_section);
        KSMFileBuilder {
            argument_section: self.argument_section,
            code_sections,
            debug_section: self.debug_section,
            completeness: PhantomData,
        }
    }

    /// Adds all of the provided code sections to this KSMFileBuilder. At least 3 code sections
    /// are required to have a well-formed KSM file.
    pub fn with_code_sections(self, code_sections: Vec<CodeSection>) -> (r: KSMFileBuilder<WithCodeAndDebug>)
        ensures
            r.arg_section_view() == self.arg_section_view(),
            r.code_sections_view() == self.code_sections_view() + code_sections@,
            r.debug_section_view() == self.debug_section_view(),
    {
        let mut all = self.code_sections;
        let mut code_sections = code_sections;
        all.append(&mut code_sections);
        KSMFileBuilder {
            argument_section: self.argument_section,
            code_sections: all,
            debug_section: self.debug_section,
            completeness: PhantomData,
        }
    }
}

impl KSMFileBuilder<Complete> {
    /// Adds the provided code section to this KSMFileBuilder. At least 3 code sections
    /// are required to have a well-formed KSM file.
    pub fn with_code_section(self, code_section: CodeSection) -> (r: KSMFileBuilder<Complete>)
        ensures
            r.arg_section_view() == self.arg_section_view(),
            r.code_sections_view() == self.code_sections_view().push(code_section),
            r.debug_section_view() == self.debug_section_view(),
    {
        let mut code_sections = self.code_sections;
        code_sections.push(code_section);
        KSMFileBuilder {
            argument_section: self.argument_section,
            code_sections,
            debug_section: self.debug_section,
            completeness: PhantomData,
        }
    }

    /// Adds all of the provided code sections to this KSMFileBuilder. At least 3 code sections
    /// are required to have a well-formed KSM file.
    pub fn with_code_sections(self, code_sections: Vec<CodeSection>) -> (r: KSMFileBuilder<Complete>)
        ensures
            r.arg_section_view() == self.arg_section_view(),
            r.code_sections_view() == self.code_sections_view() + code_sections@,
            r.debug_section_view() == self.debug_section_view(),
    {
        let mut all = self.code_sections;
        let mut code_sections = code_sections;
        all.append(&mut code_sections);
        KSMFileBuilder {
            argument_section: self.argument_section,
            code_sections: all,
            debug_section: self.debug_section,
            completeness: PhantomData,
        }
    }

    /// Returns the completed KSMFile that this builder has successfully created.
    ///
    /// KSM files to be correctly loaded by kOS without a cryptic error, **must** contain
    /// at least one entry in the debug section, and a Function code section **first**, followed
    /// by an Initialization code section, followed by a Main code section with at least **one**
    /// instruction in it. This cannot be statically guaranteed like mandatory argument and debug sections.
    ///
    /// The argument and debug sections are there in every builder of this type that the
    /// methods above give.
    pub fn finish(self) -> (r: KSMFile)
        requires
            self.arg_section_view() is Some,
            self.debug_section_view() is Some,
        ensures
            r.args_ok() == self.arg_section_view()->0.wf(),
            r@.index_bytes == self.arg_section_view()->0.index_bytes(),
            r@.arguments == self.arg_section_view()->0.arguments_view(),
            r@.code_sections == self.code_sections_view().map_values(|c: CodeSection| code_view(c)),
            r@.range_size == self.debug_section_view()->0.range_width(),
            r@.debug_entries == self.debug_section_view()->0.entries_view(),
    {
        match (self.argument_section, self.debug_section) {
            (Some(a), Some(d)) => KSMFile::new_from_parts(a, self.code_sections, d),
            _ => {
                proof {
                    assert(false);
                }
                KSMFile::new()
            },
        }
    }
}

} // verus!
