//! Compiled patterns.
//!
//! Pattern matching is done by the `regex` crate. What it answers is not
//! proved here: each answer is given a name, and the rest of the library is
//! verified for whatever the names stand for.

use regex::Regex;
use vstd::prelude::*;

verus! {

#[verifier::external_type_specification]
#[verifier::external_body]
pub struct ExRegex(regex::Regex);

#[verifier::external_type_specification]
#[verifier::external_body]
pub struct ExRegexError(regex::Error);

/// The pattern text that a compiled expression was built from.
pub uninterp spec fn regex_source(re: Regex) -> Seq<char>;

/// Whether a compiled expression is one that `Regex::new` built, with the
/// options that an expression has unless a builder sets others. What such
/// an expression answers depends on its pattern text and on what it is
/// asked about, and on nothing else.
pub uninterp spec fn regex_is_plain(re: Regex) -> bool;

/// Whether `Regex::new` accepts `source`: whether the text is a well-formed
/// pattern that compiles within the limits that `Regex::new` sets.
pub uninterp spec fn regex_compiles(source: Seq<char>) -> bool;

/// Whether `pattern` matches somewhere in `text`.
pub uninterp spec fn regex_matches(pattern: Seq<char>, text: Seq<char>) -> bool;

/// Whether the leftmost match of `pattern` in `text` exists and the capture
/// group called `group` took part in it.
pub uninterp spec fn regex_group_participates(
    pattern: Seq<char>,
    text: Seq<char>,
    group: Seq<char>,
) -> bool;

/// The names of the capture groups that `pattern` declares, in the order of
/// their opening brackets; a group without a name stands as `None`.
pub uninterp spec fn regex_group_names(pattern: Seq<char>) -> Seq<Option<Seq<char>>>;

/// Whether `pattern` declares a capture group called `group`.
pub open spec fn regex_declares_group(pattern: Seq<char>, group: Seq<char>) -> bool {
    regex_group_names(pattern).contains(Some(group))
}

/// For each match of `pattern` in `text`, from the leftmost on, none
/// overlapping another: what each capture group matched, the whole match
/// first; a group that took no part stands as `None`.
pub uninterp spec fn regex_all_captures(pattern: Seq<char>, text: Seq<char>) -> Seq<
    Seq<Option<Seq<char>>>,
>;

/// The matches as plain text.
pub open spec fn captures_view(captures: Seq<Vec<Option<String>>>) -> Seq<Seq<Option<Seq<char>>>> {
    Seq::new(captures.len(), |i: int| names_view(captures[i]@))
}

/// The names, or the parts of a match, as plain text.
pub open spec fn names_view(names: Seq<Option<String>>) -> Seq<Option<Seq<char>>> {
    Seq::new(
        names.len(),
        |i: int|
            match names[i] {
                Some(name) => Some(name@),
                None => None,
            },
    )
}

/// `text` with every non-overlapping match of `pattern` replaced by the
/// expansion of `replacement`.
pub uninterp spec fn regex_replaced(
    pattern: Seq<char>,
    text: Seq<char>,
    replacement: Seq<char>,
) -> Seq<char>;

/// Calls `Regex::new`. Whether it accepts a text depends on the text alone;
/// which texts it accepts is not said here. A compiled expression is a plain
/// one and remembers the text it was built from.
#[verifier::external_body]
fn regex_compile(source: &str) -> (r: Result<Regex, regex::Error>)
    ensures
        r is Ok <==> regex_compiles(source@),
        r matches Ok(re) ==> regex_is_plain(re) && regex_source(re) == source@,
{
    Regex::new(source)
}

/// Calls `Regex::as_str`, which hands back the text that the expression was
/// compiled from.
#[verifier::external_body]
fn regex_as_str(re: &Regex) -> (s: &str)
    ensures
        s@ == regex_source(*re),
{
    re.as_str()
}

/// Calls `Regex::is_match`. The answer depends on the pattern text and the
/// haystack alone.
#[verifier::external_body]
fn regex_is_match(re: &Regex, text: &str) -> (b: bool)
    requires
        regex_is_plain(*re),
    ensures
        b == regex_matches(regex_source(*re), text@),
{
    re.is_match(text)
}

/// Calls `Regex::captures` and then `Captures::name`: true when there is a
/// match and the named group took part in the leftmost one.
#[verifier::external_body]
fn regex_group_matched(re: &Regex, text: &str, group: &str) -> (b: bool)
    requires
        regex_is_plain(*re),
    ensures
        b == regex_group_participates(regex_source(*re), text@, group@),
{
    match re.captures(text) {
        Some(captures) => captures.name(group).is_some(),
        None => false,
    }
}

/// Calls `Regex::capture_names` and copies out what it yields: one entry
/// for each capture group of the pattern, with its name where it has one.
#[verifier::external_body]
fn regex_capture_names(re: &Regex) -> (names: Vec<Option<String>>)
    requires
        regex_is_plain(*re),
    ensures
        names_view(names@) == regex_group_names(regex_source(*re)),
{
    re.capture_names().map(|name| name.map(|text| text.to_string())).collect()
}

/// Calls `Regex::captures_iter` and copies out, for each match that it
/// yields, what `Captures::iter` yields: the text of each group, or `None`
/// for a group that took no part.
#[verifier::external_body]
fn regex_captures_iter(re: &Regex, text: &str) -> (captures: Vec<Vec<Option<String>>>)
    requires
        regex_is_plain(*re),
    ensures
        captures_view(captures@) == regex_all_captures(regex_source(*re), text@),
{
    re.captures_iter(text)
        .map(|found| found.iter().map(|group| group.map(|part| part.as_str().to_string())).collect())
        .collect()
}

/// Calls `Regex::replace_all` and copies the outcome into a `String`.
#[verifier::external_body]
fn regex_replace_all(re: &Regex, text: &str, replacement: &str) -> (s: String)
    requires
        regex_is_plain(*re),
    ensures
        s@ == regex_replaced(regex_source(*re), text@, replacement@),
{
    re.replace_all(text, replacement).into_owned()
}

/// Calls `Clone::clone` on a compiled expression; the copy was built from the
/// same pattern text with the same options.
#[verifier::external_body]
fn regex_clone(re: &Regex) -> (copy: Regex)
    ensures
        regex_source(copy) == regex_source(*re),
        regex_is_plain(copy) == regex_is_plain(*re),
{
    re.clone()
}

/// Calls `to_string` on a compile error to obtain its message.
#[verifier::external_body]
fn regex_error_message(error: &regex::Error) -> (message: String) {
    error.to_string()
}

/// Why a pattern text could not be compiled.
#[derive(Debug)]
pub struct PatternError {
    pub message: String,
}

/// A compiled pattern. Its view is the pattern text it was compiled from.
pub struct Pattern {
    regex: Regex,
}

impl View for Pattern {
    type V = Seq<char>;

    closed spec fn view(&self) -> Seq<char> {
        regex_source(self.regex)
    }
}

impl Pattern {
    #[verifier::type_invariant]
    spec fn built_plainly(self) -> bool {
        regex_is_plain(self.regex)
    }

    /// Compiles `source`: there is a pattern exactly where the text
    /// compiles, and its view is `source`.
    pub fn new(source: &str) -> (r: Result<Pattern, PatternError>)
        ensures
            r is Ok <==> regex_compiles(source@),
            r matches Ok(pattern) ==> pattern@ == source@,
    {
        // Whether `source` compiles is for the matcher to say; what becomes
        // of its answer is said where the answer is taken over.
        let compiled = regex_compile(source);
        Pattern::from_compiled(compiled)
    }

    /// The pattern text.
    pub fn as_str(&self) -> (s: &str)
        ensures
            s@ == self@,
    {
        regex_as_str(&self.regex)
    }

    /// Whether the pattern matches somewhere in `text`.
    pub fn is_match(&self, text: &str) -> (b: bool)
        ensures
            b == regex_matches(self@, text@),
    {
        proof {
            use_type_invariant(self);
        }
        regex_is_match(&self.regex, text)
    }

    /// Whether the pattern matches `text` with the capture group `group`
    /// taking part in the match.
    pub fn is_group_match(&self, text: &str, group: &str) -> (b: bool)
        ensures
            b == regex_group_participates(self@, text@, group@),
    {
        proof {
            use_type_invariant(self);
        }
        regex_group_matched(&self.regex, text, group)
    }

    /// Whether the pattern declares a capture group called `group`.
    pub fn has_group(&self, group: &str) -> (b: bool)
        ensures
            b == regex_declares_group(self@, group@),
    {
        proof {
            use_type_invariant(self);
        }
        let names = regex_capture_names(&self.regex);
        let wanted = group.to_owned();
        let ghost declared = regex_group_names(self@);
        let mut i: usize = 0;
        while i < names.len()
            invariant
                i <= names@.len(),
                wanted@ == group@,
                names_view(names@) == declared,
                declared == regex_group_names(self@),
                forall|k: int| 0 <= k < i ==> declared[k] != Some(group@),
            decreases names@.len() - i,
        {
            match &names[i] {
                Some(name) => {
                    if *name == wanted {
                        assert(declared[i as int] == Some(group@));
                        return true;
                    }
                },
                None => {},
            }
            i += 1;
        }
        false
    }

    /// The groups of every match of the pattern in `text`.
    pub fn captures_iter(&self, text: &str) -> (captures: Vec<Vec<Option<String>>>)
        ensures
            captures_view(captures@) == regex_all_captures(self@, text@),
    {
        proof {
            use_type_invariant(self);
        }
        regex_captures_iter(&self.regex, text)
    }

    /// `text` with every match replaced by `replacement`.
    pub fn replace_all(&self, text: &str, replacement: &str) -> (s: String)
        ensures
            s@ == regex_replaced(self@, text@, replacement@),
    {
        proof {
            use_type_invariant(self);
        }
        regex_replace_all(&self.regex, text, replacement)
    }
}

impl Clone for Pattern {
    fn clone(&self) -> (copy: Pattern)
        ensures
            copy@ == self@,
    {
        proof {
            use_type_invariant(self);
        }
        Pattern { regex: regex_clone(&self.regex) }
    }
}

impl Pattern {
    /// What becomes of the outcome of a compilation: a compiled expression
    /// becomes the pattern of its text, a refusal becomes an error with the
    /// message of the refusal.
    fn from_compiled(compiled: Result<Regex, regex::Error>) -> (r: Result<Pattern, PatternError>)
        requires
            compiled matches Ok(re) ==> regex_is_plain(re),
        ensures
            r is Ok <==> compiled is Ok,
            r matches Ok(pattern) ==> (compiled matches Ok(re) && pattern@ == regex_source(re)),
    {
        match compiled {
            Ok(regex) => Ok(Pattern { regex }),
            Err(error) => Err(PatternError { message: regex_error_message(&error) }),
        }
    }

    /// The pattern that a compilation gave, if it gave one.
    pub fn if_compiled(compiled: Result<Pattern, PatternError>) -> (pattern: Option<Pattern>)
        ensures
            pattern == match compiled {
                Ok(made) => Some(made),
                Err(_) => None,
            },
    {
        match compiled {
            Ok(made) => Some(made),
            Err(_) => None,
        }
    }
}

} // verus!
