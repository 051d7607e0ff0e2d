use vstd::prelude::*;
use crate::entry::{base_name, base_name_of, DirEntry, EntryKind};
use crate::pattern::{regex_match, NamePattern};

verus! {

/// The caller's filter choice: a set of accepted kinds and a sequence of
/// name patterns. Either may be empty, and an empty one restricts nothing:
/// the empty choice means "filter not applied", never "match nothing".
pub struct FilterConfig {
    pub kind_filters: Vec<EntryKind>,
    pub name_filters: Vec<NamePattern>,
}

impl FilterConfig {
    /// The configured kinds, as a sequence.
    pub open spec fn spec_kinds(&self) -> Seq<EntryKind> {
        self.kind_filters@
    }

    /// The configured patterns, each as its pattern text.
    pub open spec fn spec_patterns(&self) -> Seq<Seq<char>> {
        self.name_filters@.map_values(|p: NamePattern| p@)
    }

    /// A configuration with no filters at all: it accepts every entry.
    pub fn match_all() -> (r: FilterConfig)
        ensures
            r.spec_kinds().len() == 0,
            r.spec_patterns().len() == 0,
    {
        let r = FilterConfig { kind_filters: Vec::new(), name_filters: Vec::new() };
        proof {
            assert(r.spec_patterns() =~= Seq::<Seq<char>>::empty());
        }
        r
    }
}

/// The kind filter: an empty set accepts every kind, a non-empty one
/// accepts exactly the kinds it holds.
pub open spec fn kind_accepted(kinds: Seq<EntryKind>, kind: EntryKind) -> bool {
    kinds.len() == 0 || kinds.contains(kind)
}

/// The name filter: an empty sequence accepts every name, a non-empty one
/// accepts exactly the names some configured pattern matches.
pub open spec fn name_accepted(patterns: Seq<Seq<char>>, name: Seq<char>) -> bool {
    patterns.len() == 0 || exists|i: int| 0 <= i < patterns.len() && regex_match(patterns[i], name)
}

/// The whole pipeline: both filters must accept, and each looks only at the
/// entry's kind and at its base name.
pub open spec fn spec_accepts(
    kinds: Seq<EntryKind>,
    patterns: Seq<Seq<char>>,
    kind: EntryKind,
    name: Seq<char>,
) -> bool {
    kind_accepted(kinds, kind) && name_accepted(patterns, name)
}

fn kind_matches(kinds: &Vec<EntryKind>, kind: EntryKind) -> (r: bool)
    ensures
        r == kind_accepted(kinds@, kind),
{
    if kinds.len() == 0 {
        return true;
    }
    let mut i: usize = 0;
    while i < kinds.len()
        invariant
            0 <= i <= kinds@.len(),
            forall|k: int| 0 <= k < i ==> kinds@[k] != kind,
        decreases kinds@.len() - i,
    {
        if kinds[i] == kind {
            assert(kinds@.contains(kind));
            return true;
        }
        i += 1;
    }
    assert(!kinds@.contains(kind));
    false
}

fn name_matches(patterns: &Vec<NamePattern>, name: &str) -> (r: bool)
    ensures
        r == name_accepted(patterns@.map_values(|p: NamePattern| p@), name@),
{
    let ghost views = patterns@.map_values(|p: NamePattern| p@);
    if patterns.len() == 0 {
        return true;
    }
    let mut i: usize = 0;
    while i < patterns.len()
        invariant
            views == patterns@.map_values(|p: NamePattern| p@),
            0 <= i <= patterns@.len(),
            forall|k: int| 0 <= k < i ==> !regex_match(views[k], name@),
        decreases patterns@.len() - i,
    {
        if patterns[i].matches(name) {
            assert(regex_match(views[i as int], name@));
            return true;
        }
        i += 1;
    }
    false
}

/// Whether `entry` survives the filter pipeline of `config`. The result is
/// a function of the entry's kind and of its base name alone: nothing else
/// about the entry's path takes part.
pub fn accepts(entry: &DirEntry, config: &FilterConfig) -> (r: bool)
    ensures
        r == spec_accepts(
            config.spec_kinds(),
            config.spec_patterns(),
            entry.kind,
            base_name_of(entry.path@),
        ),
{
    let name = base_name(entry.path.as_str());
    kind_matches(&config.kind_filters, entry.kind) && name_matches(
        &config.name_filters,
        name.as_str(),
    )
}

/// The identity-filter law: a configuration whose kind set and pattern
/// sequence are both empty accepts every entry, whatever its kind and name.
pub proof fn lemma_empty_config_accepts_all(
    kinds: Seq<EntryKind>,
    patterns: Seq<Seq<char>>,
    kind: EntryKind,
    name: Seq<char>,
)
    requires
        kinds.len() == 0,
        patterns.len() == 0,
    ensures
        spec_accepts(kinds, patterns, kind, name),
{
}

/// The name-filter locality law: acceptance depends only on the entry's
/// kind and base name. Two entries of one kind whose paths share a base
/// name fare the same under every configuration, however their full paths
/// differ.
pub proof fn lemma_accepts_base_name_only(
    kinds: Seq<EntryKind>,
    patterns: Seq<Seq<char>>,
    kind: EntryKind,
    path1: Seq<char>,
    path2: Seq<char>,
)
    requires
        base_name_of(path1) == base_name_of(path2),
    ensures
        spec_accepts(kinds, patterns, kind, base_name_of(path1)) == spec_accepts(
            kinds,
            patterns,
            kind,
            base_name_of(path2),
        ),
{
}

} // verus!
