use vstd::prelude::*;
use vstd::string::StringExecFns;

verus! {

/// Whether `regex::Regex::new` accepts `pattern`: the pattern is a valid
/// regular expression whose compiled form stays within the crate's default
/// size limit. A fixed function of the pattern text alone.
pub uninterp spec fn regex_valid(pattern: Seq<char>) -> bool;

/// Whether the regular expression `pattern` matches anywhere inside `text`.
/// A fixed function of the pattern and the text alone; stated only of
/// patterns that `regex_valid` admits, since only those can be compiled.
pub uninterp spec fn regex_match(pattern: Seq<char>, text: Seq<char>) -> bool;

#[verifier::external_type_specification]
#[verifier::external_body]
pub struct ExRegex(regex::Regex);

/// Relies on `regex::Regex::new`: it returns `Ok` exactly when the pattern
/// is a valid regular expression within the default size limit, which is
/// what `regex_valid` names.
#[verifier::external_body]
fn compile(pattern: &str) -> (r: Option<regex::Regex>)
    ensures
        r is Some <==> regex_valid(pattern@),
{
    regex::Regex::new(pattern).ok()
}

/// A name matcher: a compiled regular expression paired with the pattern
/// text it was compiled from. The pairing is kept by construction: both
/// fields are private and every `NamePattern` comes out of `new`.
pub struct NamePattern {
    pattern: String,
    regex: regex::Regex,
}

impl View for NamePattern {
    type V = Seq<char>;

    closed spec fn view(&self) -> Seq<char> {
        self.pattern@
    }
}

impl NamePattern {
    /// Compiles `pattern`; `None` exactly when it is not a valid regular
    /// expression.
    pub fn new(pattern: &str) -> (r: Option<NamePattern>)
        ensures
            r is Some <==> regex_valid(pattern@),
            r matches Some(p) ==> p@ == pattern@,
    {
        match compile(pattern) {
            Some(regex) => Some(
                NamePattern { pattern: String::from_str(pattern), regex },
            ),
            None => None,
        }
    }

    /// Relies on `regex::Regex::is_match`: whether the expression matches
    /// anywhere in `text`, which `regex_match` names as a function of the
    /// pattern this matcher was compiled from and of the text.
    #[verifier::external_body]
    pub(crate) fn matches(&self, text: &str) -> (r: bool)
        ensures
            r == regex_match(self@, text@),
    {
        self.regex.is_match(text)
    }
}

} // verus!
