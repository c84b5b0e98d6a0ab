//! Filter rules, filters, and ordered filter chains under a list policy.
use crate::error::PipelineError;
use crate::path::{extension_of, path_extension};
use regex::Regex;
use vstd::prelude::*;

verus! {

#[verifier::external_type_specification]
#[verifier::external_body]
pub struct ExRegex(Regex);

/// Whether `regex::Regex::new` accepts a pattern. It depends on the pattern
/// alone: whether it parses and whether the compiled form stays under the
/// default size limit.
pub uninterp spec fn pattern_compiles(pattern: Seq<char>) -> bool;

/// Whether a compiled regex matches somewhere in a haystack.
pub uninterp spec fn regex_finds(re: Regex, haystack: Seq<char>) -> bool;

/// Whether a pattern, compiled with the default options, matches somewhere
/// in a haystack.
pub uninterp spec fn pattern_finds(pattern: Seq<char>, haystack: Seq<char>) -> bool;

/// Relies on `regex::Regex::new`: it returns `Ok` exactly for the patterns
/// that it accepts, and the regex it returns matches as its pattern does
/// under the default options.
#[verifier::external_body]
fn compile_regex(pattern: &str) -> (r: Option<Regex>)
    ensures
        r.is_some() == pattern_compiles(pattern@),
        r matches Some(re) ==> forall|h: Seq<char>|
            #[trigger] regex_finds(re, h) == pattern_finds(pattern@, h),
{
    Regex::new(pattern).ok()
}

/// Relies on `regex::Regex::is_match`: whether the regex matches anywhere in
/// the haystack.
#[verifier::external_body]
fn regex_is_match(re: &Regex, haystack: &str) -> (r: bool)
    ensures
        r == regex_finds(*re, haystack@),
{
    re.is_match(haystack)
}

/// The type of filter list to use: what happens to a path that no filter
/// matches.
#[derive(Debug, Clone, Copy, PartialEq, Eq, Structural)]
pub enum FilterListType {
    /// Paths that no filter matches are accepted.
    Blacklist,
    /// Paths that no filter matches are rejected.
    Whitelist,
}

/// A rule on how to match a path relative to the asset root.
pub enum FilterRule {
    /// Matches a path whose file extension is exactly this one (no leading `.`).
    Extension(String),
    /// Matches a path in which the regex finds a match.
    Regex(Regex),
}

/// A filter to decide whether a file becomes part of a pipeline.
pub enum Filter {
    Include(FilterRule),
    Exclude(FilterRule),
}

/// Whether an extension is written with a leading `.`.
pub open spec fn has_leading_dot(ext: Seq<char>) -> bool {
    ext.len() > 0 && ext[0] == '.'
}

/// Whether a rule matches a relative path.
pub open spec fn rule_matches(rule: FilterRule, relative: Seq<char>) -> bool {
    match rule {
        FilterRule::Extension(ext) => path_extension(relative) == Some(ext@),
        FilterRule::Regex(re) => regex_finds(re, relative),
    }
}

/// The rule of a filter.
pub open spec fn rule_of(filter: Filter) -> FilterRule {
    match filter {
        Filter::Include(rule) => rule,
        Filter::Exclude(rule) => rule,
    }
}

/// The outcome that the first matching filter gives (`true` to include), if
/// any filter matches.
pub open spec fn first_match(filters: Seq<Filter>, relative: Seq<char>) -> Option<bool>
    decreases filters.len(),
{
    if filters.len() == 0 {
        None
    } else if rule_matches(rule_of(filters[0]), relative) {
        Some(filters[0] is Include)
    } else {
        first_match(filters.drop_first(), relative)
    }
}

/// Whether a chain of filters under a policy accepts a relative path: the
/// first matching filter decides, else the policy does.
pub open spec fn chain_verdict(filters: Seq<Filter>, policy: FilterListType, relative: Seq<char>) -> bool {
    match first_match(filters, relative) {
        Some(keep) => keep,
        None => policy == FilterListType::Blacklist,
    }
}

impl FilterRule {
    /// A rule on a file extension, which must not start with `.`.
    pub fn extension(extension: &str) -> (r: Result<FilterRule, PipelineError>)
        ensures
            has_leading_dot(extension@) ==> r == Err::<FilterRule, PipelineError>(
                PipelineError::InvalidRule,
            ),
            !has_leading_dot(extension@) ==> (r matches Ok(FilterRule::Extension(e)) && e@
                == extension@),
    {
        if !extension.is_empty() && extension.get_char(0) == '.' {
            return Err(PipelineError::InvalidRule);
        }
        Ok(FilterRule::Extension(String::from_str(extension)))
    }

    /// A rule on a regex pattern, which must compile.
    pub fn regex(regex_str: &str) -> (r: Result<FilterRule, PipelineError>)
        ensures
            pattern_compiles(regex_str@) <==> r matches Ok(FilterRule::Regex(_)),
            !pattern_compiles(regex_str@) ==> r == Err::<FilterRule, PipelineError>(
                PipelineError::InvalidRule,
            ),
            r matches Ok(rule) ==> forall|h: Seq<char>|
                #[trigger] rule_matches(rule, h) == pattern_finds(regex_str@, h),
    {
        match compile_regex(regex_str) {
            Some(re) => Ok(FilterRule::Regex(re)),
            None => Err(PipelineError::InvalidRule),
        }
    }

    /// Whether the rule matches a path relative to the asset root.
    pub fn matches(&self, relative_path: &str) -> (r: bool)
        ensures
            r == rule_matches(*self, relative_path@),
    {
        match self {
            FilterRule::Extension(ext) => match extension_of(relative_path) {
                Some(e) => e == *ext,
                None => false,
            },
            FilterRule::Regex(re) => regex_is_match(re, relative_path),
        }
    }
}

impl Filter {
    /// A filter that includes a file extension.
    pub fn include_extension(ext: &str) -> (r: Result<Filter, PipelineError>)
        ensures
            has_leading_dot(ext@) ==> r == Err::<Filter, PipelineError>(PipelineError::InvalidRule),
            !has_leading_dot(ext@) ==> (r matches Ok(Filter::Include(FilterRule::Extension(e)))
                && e@ == ext@),
    {
        match FilterRule::extension(ext) {
            Ok(rule) => Ok(Filter::Include(rule)),
            Err(e) => Err(e),
        }
    }

    /// A filter that excludes a file extension.
    pub fn exclude_extension(ext: &str) -> (r: Result<Filter, PipelineError>)
        ensures
            has_leading_dot(ext@) ==> r == Err::<Filter, PipelineError>(PipelineError::InvalidRule),
            !has_leading_dot(ext@) ==> (r matches Ok(Filter::Exclude(FilterRule::Extension(e)))
                && e@ == ext@),
    {
        match FilterRule::extension(ext) {
            Ok(rule) => Ok(Filter::Exclude(rule)),
            Err(e) => Err(e),
        }
    }

    /// A filter that includes the paths a regex matches.
    pub fn include_regex(regex_str: &str) -> (r: Result<Filter, PipelineError>)
        ensures
            pattern_compiles(regex_str@) <==> r matches Ok(Filter::Include(FilterRule::Regex(_))),
            !pattern_compiles(regex_str@) ==> r == Err::<Filter, PipelineError>(
                PipelineError::InvalidRule,
            ),
            r matches Ok(f) ==> forall|h: Seq<char>|
                #[trigger] rule_matches(rule_of(f), h) == pattern_finds(regex_str@, h),
    {
        match FilterRule::regex(regex_str) {
            Ok(rule) => Ok(Filter::Include(rule)),
            Err(e) => Err(e),
        }
    }

    /// A filter that excludes the paths a regex matches.
    pub fn exclude_regex(regex_str: &str) -> (r: Result<Filter, PipelineError>)
        ensures
            pattern_compiles(regex_str@) <==> r matches Ok(Filter::Exclude(FilterRule::Regex(_))),
            !pattern_compiles(regex_str@) ==> r == Err::<Filter, PipelineError>(
                PipelineError::InvalidRule,
            ),
            r matches Ok(f) ==> forall|h: Seq<char>|
                #[trigger] rule_matches(rule_of(f), h) == pattern_finds(regex_str@, h),
    {
        match FilterRule::regex(regex_str) {
            Ok(rule) => Ok(Filter::Exclude(rule)),
            Err(e) => Err(e),
        }
    }

    /// Whether the filter's rule matches a path relative to the asset root.
    pub fn matches(&self, relative_path: &str) -> (r: bool)
        ensures
            r == rule_matches(rule_of(*self), relative_path@),
    {
        match self {
            Filter::Include(rule) => rule.matches(relative_path),
            Filter::Exclude(rule) => rule.matches(relative_path),
        }
    }
}

/// Whether a chain of filters under a policy accepts a path relative to the
/// asset root: the first filter whose rule matches decides, and where none
/// matches, a blacklist accepts and a whitelist rejects.
pub fn accepts(filters: &Vec<Filter>, policy: FilterListType, relative_path: &str) -> (r: bool)
    ensures
        r == chain_verdict(filters@, policy, relative_path@),
{
    let mut i: usize = 0;
    proof {
        assert(filters@.subrange(0, filters.len() as int) =~= filters@);
    }
    while i < filters.len()
        invariant
            i <= filters.len(),
            first_match(filters@, relative_path@) == first_match(
                filters@.subrange(i as int, filters.len() as int),
                relative_path@,
            ),
        decreases filters.len() - i,
    {
        proof {
            assert(filters@.subrange(i as int, filters.len() as int).drop_first() =~= filters@.subrange(
                i + 1,
                filters.len() as int,
            ));
        }
        if filters[i].matches(relative_path) {
            return match &filters[i] {
                Filter::Include(_) => true,
                Filter::Exclude(_) => false,
            };
        }
        i += 1;
    }
    match policy {
        FilterListType::Blacklist => true,
        FilterListType::Whitelist => false,
    }
}

/// The first filter that matches decides: a chain that excludes an extension
/// and then includes the same extension rejects every path with that
/// extension, whatever filters follow and whatever the policy.
pub proof fn lemma_first_match_wins(
    ext: String,
    rest: Seq<Filter>,
    policy: FilterListType,
    relative: Seq<char>,
)
    requires
        path_extension(relative) == Some(ext@),
    ensures
        !chain_verdict(
            seq![
                Filter::Exclude(FilterRule::Extension(ext)),
                Filter::Include(FilterRule::Extension(ext)),
            ] + rest,
            policy,
            relative,
        ),
{
    let chain = seq![
        Filter::Exclude(FilterRule::Extension(ext)),
        Filter::Include(FilterRule::Extension(ext)),
    ] + rest;
    assert(chain[0] == Filter::Exclude(FilterRule::Extension(ext)));
}

/// With no filters the policy alone decides: a blacklist accepts every path
/// and a whitelist rejects every path.
pub proof fn lemma_empty_chain(policy: FilterListType, relative: Seq<char>)
    ensures
        chain_verdict(Seq::empty(), policy, relative) == (policy == FilterListType::Blacklist),
{
}

} // verus!
