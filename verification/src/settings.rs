//! What a caller may ask of a parser: the drive letter of its paths, and
//! the records that it leaves out.
use crate::exclusion::{pattern_compiles, Exclusion};
use vstd::prelude::*;

verus! {

/// The settings of a parser.
#[derive(Debug)]
pub struct ParserSettings {
    /// The letter that stands for the root of the volume in a path.
    pub drive_char: Option<char>,
    /// Records whose path this expression matches are left out.
    pub path_exclusion_regex: Option<Exclusion>,
    /// Records whose file name this expression matches are left out.
    pub filename_exclusion_regex: Option<Exclusion>,
}

impl Default for ParserSettings {
    fn default() -> (settings: ParserSettings)
        ensures
            settings.drive_char is None,
            settings.path_exclusion_regex is None,
            settings.filename_exclusion_regex is None,
    {
        ParserSettings {
            drive_char: None,
            path_exclusion_regex: None,
            filename_exclusion_regex: None,
        }
    }
}

impl ParserSettings {
    /// True when the settings leave no record out.
    pub open spec fn excludes_nothing(&self) -> bool {
        self.path_exclusion_regex is None && self.filename_exclusion_regex is None
    }

    /// Settings without a drive letter that leave no record out.
    pub fn new() -> (settings: ParserSettings)
        ensures
            settings.drive_char is None,
            settings.excludes_nothing(),
    {
        ParserSettings {
            drive_char: None,
            path_exclusion_regex: None,
            filename_exclusion_regex: None,
        }
    }

    /// The settings with the drive letter `drive_char`.
    pub fn drive_char(self, drive_char: char) -> (settings: ParserSettings)
        ensures
            settings.drive_char == Some(drive_char),
            settings.path_exclusion_regex == self.path_exclusion_regex,
            settings.filename_exclusion_regex == self.filename_exclusion_regex,
    {
        ParserSettings {
            drive_char: Some(drive_char),
            path_exclusion_regex: self.path_exclusion_regex,
            filename_exclusion_regex: self.filename_exclusion_regex,
        }
    }

    /// The settings with `compiled` as the expression for paths to leave
    /// out, or none.
    pub fn with_path_exclusion(self, compiled: Option<Exclusion>) -> (settings: ParserSettings)
        ensures
            settings.drive_char == self.drive_char,
            settings.path_exclusion_regex == compiled,
            settings.filename_exclusion_regex == self.filename_exclusion_regex,
    {
        ParserSettings {
            drive_char: self.drive_char,
            path_exclusion_regex: compiled,
            filename_exclusion_regex: self.filename_exclusion_regex,
        }
    }

    /// The settings with `compiled` as the expression for file names to
    /// leave out, or none.
    pub fn with_filename_exclusion(self, compiled: Option<Exclusion>) -> (settings:
        ParserSettings)
        ensures
            settings.drive_char == self.drive_char,
            settings.path_exclusion_regex == self.path_exclusion_regex,
            settings.filename_exclusion_regex == compiled,
    {
        ParserSettings {
            drive_char: self.drive_char,
            path_exclusion_regex: self.path_exclusion_regex,
            filename_exclusion_regex: compiled,
        }
    }

    /// The settings that leave out the records whose path the pattern
    /// `regex` matches. A pattern that does not compile leaves none out.
    pub fn path_exclusion_regex(self, regex: &str) -> (settings: ParserSettings)
        ensures
            settings.drive_char == self.drive_char,
            settings.filename_exclusion_regex == self.filename_exclusion_regex,
            settings.path_exclusion_regex is Some <==> pattern_compiles(regex@),
            settings.path_exclusion_regex is Some ==> settings.path_exclusion_regex->Some_0@
                == regex@,
    {
        let compiled = Exclusion::new(regex);
        self.with_path_exclusion(compiled)
    }

    /// The settings that leave out the records whose file name the pattern
    /// `regex` matches. A pattern that does not compile leaves none out.
    pub fn filename_exclusion_regex(self, regex: &str) -> (settings: ParserSettings)
        ensures
            settings.drive_char == self.drive_char,
            settings.path_exclusion_regex == self.path_exclusion_regex,
            settings.filename_exclusion_regex is Some <==> pattern_compiles(regex@),
            settings.filename_exclusion_regex is Some ==> settings.filename_exclusion_regex->Some_0@
                == regex@,
    {
        let compiled = Exclusion::new(regex);
        self.with_filename_exclusion(compiled)
    }
}

} // verus!
