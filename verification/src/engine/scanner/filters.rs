//! Path filters: each filter is a conjunction of optional conditions on the
//! file name, the directory and the extension of a path.

use vstd::prelude::*;
use crate::paths::{extension_of, file_extension, file_name_of, parent_of, path_file_name, path_parent};
use crate::text::{contains, lowercase_of, opt_view, str_contains, str_eq};

verus! {

/// `regex::Error`, which says why a pattern did not compile. It is carried
/// along and never looked into.
#[verifier::external_type_specification]
#[verifier::external_body]
pub struct ExRegexError(regex::Error);

/// Whether `pattern` is a regular expression that the `regex` crate
/// accepts, with or without the case-insensitive flag.
pub uninterp spec fn regex_compiles(pattern: Seq<char>, case_insensitive: bool) -> bool;

/// Whether the regular expression `pattern`, with or without the
/// case-insensitive flag, matches somewhere in `text`. Meaningful only
/// where the pattern compiles.
pub uninterp spec fn regex_is_match(pattern: Seq<char>, case_insensitive: bool, text: Seq<
    char,
>) -> bool;

/// Builds the pattern with `regex::RegexBuilder::build`. Whether that
/// succeeds depends on the pattern and the flag alone.
#[verifier::external_body]
fn regex_check(pattern: &str, case_insensitive: bool) -> (r: Result<(), regex::Error>)
    ensures
        r.is_ok() == regex_compiles(pattern@, case_insensitive),
{
    regex::RegexBuilder::new(pattern).case_insensitive(case_insensitive).build().map(|_| ())
}

/// Builds the pattern and asks `regex::Regex::is_match` whether it matches
/// anywhere in `text`. The answer depends on the pattern, the flag and the
/// text alone.
#[verifier::external_body]
fn regex_match(pattern: &str, case_insensitive: bool, text: &str) -> (r: Result<
    bool,
    regex::Error,
>)
    ensures
        r.is_ok() == regex_compiles(pattern@, case_insensitive),
        r.is_ok() ==> r.unwrap() == regex_is_match(pattern@, case_insensitive, text@),
{
    regex::RegexBuilder::new(pattern).case_insensitive(case_insensitive).build().map(
        |re| re.is_match(text),
    )
}

/// Why a filter could not be configured.
#[derive(Debug)]
pub enum ScannerFilterError {
    InvalidRegex(regex::Error),
}

/// A substring test, with or without regard to letter case.
#[derive(Debug)]
pub struct StringCondition {
    substring: String,
    case_sensitive: bool,
}

/// What a substring test holds.
pub struct StringConditionView {
    pub substring: Seq<char>,
    pub case_sensitive: bool,
}

impl View for StringCondition {
    type V = StringConditionView;

    closed spec fn view(&self) -> StringConditionView {
        StringConditionView { substring: self.substring@, case_sensitive: self.case_sensitive }
    }
}

/// Whether `target` meets the condition: it holds the substring as it
/// stands, or, without regard to case, its lowercase form holds the
/// lowercase form of the substring.
pub open spec fn condition_matches(condition: StringConditionView, target: Seq<char>) -> bool {
    if condition.case_sensitive {
        contains(target, condition.substring)
    } else {
        contains(lowercase_of(target), lowercase_of(condition.substring))
    }
}

impl Clone for StringCondition {
    fn clone(&self) -> (c: Self)
        ensures
            c@ == self@,
    {
        StringCondition { substring: self.substring.clone(), case_sensitive: self.case_sensitive }
    }
}

impl StringCondition {
    /// A test for `substring`, with or without regard to letter case.
    pub fn new(substring: &str, case_sensitive: bool) -> (c: Self)
        ensures
            c@ == (StringConditionView { substring: substring@, case_sensitive }),
    {
        StringCondition { substring: substring.to_owned(), case_sensitive }
    }

    /// Whether `target` meets the condition.
    pub fn matches(&self, target: &str) -> (b: bool)
        ensures
            b == condition_matches(self@, target@),
    {
        if self.case_sensitive {
            str_contains(target, self.substring.as_str())
        } else {
            let folded_target = target.to_lowercase();
            let folded_substring = self.substring.as_str().to_lowercase();
            str_contains(folded_target.as_str(), folded_substring.as_str())
        }
    }
}

/// A regular expression for file names, kept as its text.
#[derive(Debug)]
pub struct FilenamePattern {
    pattern: String,
    case_insensitive: bool,
}

/// What a file name pattern holds.
pub struct FilenamePatternView {
    pub pattern: Seq<char>,
    pub case_insensitive: bool,
}

impl View for FilenamePattern {
    type V = FilenamePatternView;

    closed spec fn view(&self) -> FilenamePatternView {
        FilenamePatternView { pattern: self.pattern@, case_insensitive: self.case_insensitive }
    }
}

/// Whether the pattern compiles and matches somewhere in `name`.
pub open spec fn pattern_matches(pattern: FilenamePatternView, name: Seq<char>) -> bool {
    &&& regex_compiles(pattern.pattern, pattern.case_insensitive)
    &&& regex_is_match(pattern.pattern, pattern.case_insensitive, name)
}

impl Clone for FilenamePattern {
    fn clone(&self) -> (c: Self)
        ensures
            c@ == self@,
    {
        FilenamePattern { pattern: self.pattern.clone(), case_insensitive: self.case_insensitive }
    }
}

/// A conjunction of optional conditions on a path.
#[derive(Debug)]
pub struct Filter {
    case_sensitive: bool,
    filename_contains: Option<StringCondition>,
    filename_not_contains: Option<StringCondition>,
    dir_contains: Option<StringCondition>,
    dir_not_contains: Option<StringCondition>,
    extension_is: Option<String>,
    extension_is_not: Option<String>,
    filename_regex: Option<FilenamePattern>,
}

/// What a filter holds.
pub struct FilterView {
    pub case_sensitive: bool,
    pub filename_contains: Option<StringConditionView>,
    pub filename_not_contains: Option<StringConditionView>,
    pub dir_contains: Option<StringConditionView>,
    pub dir_not_contains: Option<StringConditionView>,
    pub extension_is: Option<Seq<char>>,
    pub extension_is_not: Option<Seq<char>>,
    pub filename_regex: Option<FilenamePatternView>,
}

/// The view of an optional substring test.
pub open spec fn condition_view(c: Option<StringCondition>) -> Option<StringConditionView> {
    match c {
        Some(c) => Some(c@),
        None => None,
    }
}

/// The view of an optional file name pattern.
pub open spec fn pattern_view(p: Option<FilenamePattern>) -> Option<FilenamePatternView> {
    match p {
        Some(p) => Some(p@),
        None => None,
    }
}

impl View for Filter {
    type V = FilterView;

    closed spec fn view(&self) -> FilterView {
        FilterView {
            case_sensitive: self.case_sensitive,
            filename_contains: condition_view(self.filename_contains),
            filename_not_contains: condition_view(self.filename_not_contains),
            dir_contains: condition_view(self.dir_contains),
            dir_not_contains: condition_view(self.dir_not_contains),
            extension_is: opt_view(self.extension_is),
            extension_is_not: opt_view(self.extension_is_not),
            filename_regex: pattern_view(self.filename_regex),
        }
    }
}

/// A filter without conditions, which regards letter case.
pub open spec fn empty_filter() -> FilterView {
    FilterView {
        case_sensitive: true,
        filename_contains: None,
        filename_not_contains: None,
        dir_contains: None,
        dir_not_contains: None,
        extension_is: None,
        extension_is_not: None,
        filename_regex: None,
    }
}

/// Whether a required substring test, if there is one, is met.
pub open spec fn requires_match(condition: Option<StringConditionView>, target: Seq<char>) -> bool {
    condition is Some ==> condition_matches(condition->0, target)
}

/// Whether a forbidden substring test, if there is one, is not met.
pub open spec fn forbids_match(condition: Option<StringConditionView>, target: Seq<char>) -> bool {
    condition is Some ==> !condition_matches(condition->0, target)
}

/// Whether a path with the given file name, directory and extension
/// passes the filter: every condition that is set must hold. A condition on
/// the extension, of either kind, fails a path without an extension.
pub open spec fn filter_passes(
    filter: FilterView,
    file_name: Seq<char>,
    dir: Seq<char>,
    extension: Option<Seq<char>>,
) -> bool {
    &&& requires_match(filter.filename_contains, file_name)
    &&& forbids_match(filter.filename_not_contains, file_name)
    &&& requires_match(filter.dir_contains, dir)
    &&& forbids_match(filter.dir_not_contains, dir)
    &&& filter.extension_is is Some ==> extension == filter.extension_is
    &&& filter.extension_is_not is Some ==> extension is Some && extension
        != filter.extension_is_not
    &&& filter.filename_regex is Some ==> pattern_matches(filter.filename_regex->0, file_name)
}

/// `o`, or the empty text where there is none.
pub open spec fn or_empty(o: Option<Seq<char>>) -> Seq<char> {
    match o {
        Some(s) => s,
        None => Seq::empty(),
    }
}

/// The extension of a path: that of its file name, if it has one.
pub open spec fn path_extension(path: Seq<char>) -> Option<Seq<char>> {
    match path_file_name(path) {
        Some(name) => extension_of(name),
        None => None,
    }
}

/// Whether `path` passes the filter.
pub open spec fn filter_accepts(filter: FilterView, path: Seq<char>) -> bool {
    filter_passes(
        filter,
        or_empty(path_file_name(path)),
        or_empty(path_parent(path)),
        path_extension(path),
    )
}

impl Clone for Filter {
    fn clone(&self) -> (f: Self)
        ensures
            f@ == self@,
    {
        Filter {
            case_sensitive: self.case_sensitive,
            filename_contains: clone_condition(&self.filename_contains),
            filename_not_contains: clone_condition(&self.filename_not_contains),
            dir_contains: clone_condition(&self.dir_contains),
            dir_not_contains: clone_condition(&self.dir_not_contains),
            extension_is: clone_text(&self.extension_is),
            extension_is_not: clone_text(&self.extension_is_not),
            filename_regex: match &self.filename_regex {
                Some(p) => Some(p.clone()),
                None => None,
            },
        }
    }
}

fn clone_condition(c: &Option<StringCondition>) -> (r: Option<StringCondition>)
    ensures
        condition_view(r) == condition_view(*c),
{
    match c {
        Some(c) => Some(c.clone()),
        None => None,
    }
}

fn clone_text(t: &Option<String>) -> (r: Option<String>)
    ensures
        opt_view(r) == opt_view(*t),
{
    match t {
        Some(t) => Some(t.clone()),
        None => None,
    }
}

impl Default for Filter {
    fn default() -> (f: Self)
        ensures
            f@ == empty_filter(),
    {
        Filter::new()
    }
}

impl Filter {
    /// A filter without conditions, which every path passes.
    pub fn new() -> (f: Self)
        ensures
            f@ == empty_filter(),
    {
        Filter {
            case_sensitive: true,
            filename_contains: None,
            filename_not_contains: None,
            dir_contains: None,
            dir_not_contains: None,
            extension_is: None,
            extension_is_not: None,
            filename_regex: None,
        }
    }

    /// Requires the file name to hold `substring`, with the regard to case
    /// that the filter has at this moment.
    pub fn set_filename_contains(&mut self, substring: &str)
        ensures
            final(self)@ == (FilterView {
                filename_contains: Some(
                    StringConditionView {
                        substring: substring@,
                        case_sensitive: old(self)@.case_sensitive,
                    },
                ),
                ..old(self)@
            }),
    {
        self.filename_contains = Some(StringCondition::new(substring, self.case_sensitive));
    }

    /// Requires the file name not to hold `substring`.
    pub fn set_filename_not_contains(&mut self, substring: &str)
        ensures
            final(self)@ == (FilterView {
                filename_not_contains: Some(
                    StringConditionView {
                        substring: substring@,
                        case_sensitive: old(self)@.case_sensitive,
                    },
                ),
                ..old(self)@
            }),
    {
        self.filename_not_contains = Some(StringCondition::new(substring, self.case_sensitive));
    }

    /// Requires the directory to hold `substring`.
    pub fn set_dir_contains(&mut self, substring: &str)
        ensures
            final(self)@ == (FilterView {
                dir_contains: Some(
                    StringConditionView {
                        substring: substring@,
                        case_sensitive: old(self)@.case_sensitive,
                    },
                ),
                ..old(self)@
            }),
    {
        self.dir_contains = Some(StringCondition::new(substring, self.case_sensitive));
    }

    /// Requires the directory not to hold `substring`.
    pub fn set_dir_not_contains(&mut self, substring: &str)
        ensures
            final(self)@ == (FilterView {
                dir_not_contains: Some(
                    StringConditionView {
                        substring: substring@,
                        case_sensitive: old(self)@.case_sensitive,
                    },
                ),
                ..old(self)@
            }),
    {
        self.dir_not_contains = Some(StringCondition::new(substring, self.case_sensitive));
    }

    /// Requires the extension to be exactly `extension`.
    pub fn set_extension_is(&mut self, extension: &str)
        ensures
            final(self)@ == (FilterView { extension_is: Some(extension@), ..old(self)@ }),
    {
        self.extension_is = Some(extension.to_owned());
    }

    /// Requires an extension other than `extension`.
    pub fn set_extension_is_not(&mut self, extension: &str)
        ensures
            final(self)@ == (FilterView { extension_is_not: Some(extension@), ..old(self)@ }),
    {
        self.extension_is_not = Some(extension.to_owned());
    }

    /// Requires the file name to match the regular expression `pattern`,
    /// without regard to case where the filter has none at this moment. A
    /// pattern that does not compile is refused and leaves the filter as it
    /// was.
    pub fn set_filename_regex(&mut self, pattern: &str) -> (r: Result<(), ScannerFilterError>)
        ensures
            r.is_ok() == regex_compiles(pattern@, !old(self)@.case_sensitive),
            r.is_ok() ==> final(self)@ == (FilterView {
                filename_regex: Some(
                    FilenamePatternView {
                        pattern: pattern@,
                        case_insensitive: !old(self)@.case_sensitive,
                    },
                ),
                ..old(self)@
            }),
            r.is_err() ==> final(self)@ == old(self)@,
    {
        let case_insensitive = !self.case_sensitive;
        match regex_check(pattern, case_insensitive) {
            Ok(_) => {
                self.filename_regex = Some(
                    FilenamePattern { pattern: pattern.to_owned(), case_insensitive },
                );
                Ok(())
            },
            Err(e) => Err(ScannerFilterError::InvalidRegex(e)),
        }
    }

    /// Sets the regard to letter case for the conditions that are set from
    /// now on. Conditions that are already set keep theirs.
    pub fn set_case_sensitive(&mut self, case_sensitive: bool)
        ensures
            final(self)@ == (FilterView { case_sensitive, ..old(self)@ }),
    {
        self.case_sensitive = case_sensitive;
    }

    /// Whether a path with the given file name, directory and extension
    /// passes the filter.
    pub fn check_parts(&self, file_name: &str, dir: &str, extension: Option<&str>) -> (b: bool)
        ensures
            b == filter_passes(
                self@,
                file_name@,
                dir@,
                match extension {
                    Some(e) => Some(e@),
                    None => None,
                },
            ),
    {
        if let Some(condition) = &self.filename_contains {
            if !condition.matches(file_name) {
                return false;
            }
        }
        if let Some(condition) = &self.filename_not_contains {
            if condition.matches(file_name) {
                return false;
            }
        }
        if let Some(condition) = &self.dir_contains {
            if !condition.matches(dir) {
                return false;
            }
        }
        if let Some(condition) = &self.dir_not_contains {
            if condition.matches(dir) {
                return false;
            }
        }
        if let Some(wanted) = &self.extension_is {
            match extension {
                Some(e) => {
                    if !str_eq(e, wanted.as_str()) {
                        return false;
                    }
                },
                None => {
                    return false;
                },
            }
        }
        if let Some(unwanted) = &self.extension_is_not {
            match extension {
                Some(e) => {
                    if str_eq(e, unwanted.as_str()) {
                        return false;
                    }
                },
                None => {
                    return false;
                },
            }
        }
        if let Some(pattern) = &self.filename_regex {
            match regex_match(pattern.pattern.as_str(), pattern.case_insensitive, file_name) {
                Ok(matched) => {
                    if !matched {
                        return false;
                    }
                },
                Err(_) => {
                    return false;
                },
            }
        }
        true
    }

    /// Whether `path` passes the filter.
    pub fn check(&self, path: &str) -> (b: bool)
        ensures
            b == filter_accepts(self@, path@),
    {
        proof {
            reveal_strlit("");
        }
        let name = file_name_of(path);
        let parent = parent_of(path);
        let extension = match &name {
            Some(n) => file_extension(n.as_str()),
            None => None,
        };
        let file_name: &str = match &name {
            Some(n) => n.as_str(),
            None => "",
        };
        let dir: &str = match &parent {
            Some(d) => d.as_str(),
            None => "",
        };
        assert(file_name@ =~= or_empty(path_file_name(path@)));
        assert(dir@ =~= or_empty(path_parent(path@)));
        match &extension {
            Some(e) => self.check_parts(file_name, dir, Some(e.as_str())),
            None => self.check_parts(file_name, dir, None),
        }
    }
}

} // verus!
