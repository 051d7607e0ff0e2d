use vstd::prelude::*;
use vstd::string::StringExecFns;
use crate::entry::{base_name_of, DirEntry, EntryKind};
use crate::filter::{accepts, spec_accepts, FilterConfig};
use crate::walker::WalkError;

verus! {

/// One item of a walk's output stream: a classified entry, or one
/// unreadable path.
pub enum WalkItem {
    Entry(DirEntry),
    Fail(WalkError),
}

/// The display paths of the entries of `items` that survive the filters,
/// in walk order. Failed items contribute nothing here — they are reported
/// separately and never end the walk.
pub open spec fn spec_matches(
    items: Seq<WalkItem>,
    kinds: Seq<EntryKind>,
    patterns: Seq<Seq<char>>,
) -> Seq<Seq<char>>
    decreases items.len(),
{
    if items.len() == 0 {
        Seq::<Seq<char>>::empty()
    } else {
        let rest = spec_matches(items.drop_last(), kinds, patterns);
        match items.last() {
            WalkItem::Entry(e) => if spec_accepts(
                kinds,
                patterns,
                e.kind,
                base_name_of(e.path@),
            ) {
                rest.push(e.path@)
            } else {
                rest
            },
            WalkItem::Fail(_) => rest,
        }
    }
}

/// One failed item's diagnostic line: the path and the error text.
pub open spec fn spec_error_line(e: WalkError) -> Seq<char> {
    e.path@ + seq![':', ' '] + e.message@
}

/// The diagnostic lines of `items`, in walk order: one per failed item.
pub open spec fn spec_errors(items: Seq<WalkItem>) -> Seq<Seq<char>>
    decreases items.len(),
{
    if items.len() == 0 {
        Seq::<Seq<char>>::empty()
    } else {
        let rest = spec_errors(items.drop_last());
        match items.last() {
            WalkItem::Entry(_) => rest,
            WalkItem::Fail(e) => rest.push(spec_error_line(e)),
        }
    }
}

/// Lines joined by single newlines: no newline after the last line, and an
/// empty sequence of lines is the empty text.
pub open spec fn spec_join_lines(lines: Seq<Seq<char>>) -> Seq<char>
    decreases lines.len(),
{
    if lines.len() == 0 {
        Seq::<char>::empty()
    } else if lines.len() == 1 {
        lines[0]
    } else {
        spec_join_lines(lines.drop_last()) + seq!['\n'] + lines.last()
    }
}

/// The display paths of the entries that survive the filters of `config`,
/// in walk order.
pub fn matching_paths(items: &Vec<WalkItem>, config: &FilterConfig) -> (r: Vec<String>)
    ensures
        r@.map_values(|s: String| s@) == spec_matches(
            items@,
            config.spec_kinds(),
            config.spec_patterns(),
        ),
{
    let ghost ks = config.spec_kinds();
    let ghost ps = config.spec_patterns();
    let mut r: Vec<String> = Vec::new();
    proof {
        assert(r@.map_values(|s: String| s@) =~= spec_matches(items@.take(0), ks, ps));
    }
    let mut i: usize = 0;
    while i < items.len()
        invariant
            0 <= i <= items@.len(),
            ks == config.spec_kinds(),
            ps == config.spec_patterns(),
            r@.map_values(|s: String| s@) == spec_matches(items@.take(i as int), ks, ps),
        decreases items@.len() - i,
    {
        let ghost before = r@.map_values(|s: String| s@);
        match &items[i] {
            WalkItem::Entry(e) => {
                if accepts(e, config) {
                    r.push(e.path.clone());
                    proof {
                        assert(r@.map_values(|s: String| s@) =~= before.push(e.path@));
                    }
                }
            },
            WalkItem::Fail(_) => {},
        }
        proof {
            assert(items@.take(i + 1).drop_last() =~= items@.take(i as int));
            assert(items@.take(i + 1).last() == items@[i as int]);
        }
        i += 1;
    }
    proof {
        assert(items@.take(items@.len() as int) =~= items@);
    }
    r
}

/// The diagnostic lines of `items`, in walk order: one per failed item,
/// its path and its error text joined by `": "`.
pub fn error_lines(items: &Vec<WalkItem>) -> (r: Vec<String>)
    ensures
        r@.map_values(|s: String| s@) == spec_errors(items@),
{
    let mut r: Vec<String> = Vec::new();
    proof {
        assert(r@.map_values(|s: String| s@) =~= spec_errors(items@.take(0)));
    }
    let mut i: usize = 0;
    while i < items.len()
        invariant
            0 <= i <= items@.len(),
            r@.map_values(|s: String| s@) == spec_errors(items@.take(i as int)),
        decreases items@.len() - i,
    {
        let ghost before = r@.map_values(|s: String| s@);
        match &items[i] {
            WalkItem::Entry(_) => {},
            WalkItem::Fail(e) => {
                let mut line = e.path.clone();
                line.append(": ");
                line.append(e.message.as_str());
                proof {
                    reveal_strlit(": ");
                    assert(line@ =~= spec_error_line(*e));
                }
                r.push(line);
                proof {
                    assert(r@.map_values(|s: String| s@) =~= before.push(spec_error_line(*e)));
                }
            },
        }
        proof {
            assert(items@.take(i + 1).drop_last() =~= items@.take(i as int));
            assert(items@.take(i + 1).last() == items@[i as int]);
        }
        i += 1;
    }
    proof {
        assert(items@.take(items@.len() as int) =~= items@);
    }
    r
}

/// Joins `lines` with single newlines; no trailing newline, and no lines
/// give the empty text.
pub fn join_lines(lines: &Vec<String>) -> (r: String)
    ensures
        r@ == spec_join_lines(lines@.map_values(|s: String| s@)),
{
    let ghost ls = lines@.map_values(|s: String| s@);
    let mut r = String::new();
    let mut i: usize = 0;
    while i < lines.len()
        invariant
            ls == lines@.map_values(|s: String| s@),
            0 <= i <= lines@.len(),
            r@ == spec_join_lines(ls.take(i as int)),
        decreases lines@.len() - i,
    {
        let ghost before = r@;
        if i > 0 {
            r.append("\n");
        }
        r.append(lines[i].as_str());
        proof {
            reveal_strlit("\n");
            assert(ls.take(i + 1).drop_last() =~= ls.take(i as int));
            assert(ls.take(i + 1).last() == ls[i as int]);
            if i == 0 {
                assert(r@ =~= ls[0]);
                assert(r@ == spec_join_lines(ls.take(1)));
            } else {
                assert(r@ =~= spec_join_lines(ls.take(i as int)) + seq!['\n'] + ls[i as int]);
            }
        }
        i += 1;
    }
    proof {
        assert(ls.take(ls.len() as int) =~= ls);
    }
    r
}

/// One root's output block: its matching display paths joined by newlines.
/// A root with no matches yields the empty block — once printed, an empty
/// line, never a suppressed one.
pub fn root_block(items: &Vec<WalkItem>, config: &FilterConfig) -> (r: String)
    ensures
        r@ == spec_join_lines(
            spec_matches(items@, config.spec_kinds(), config.spec_patterns()),
        ),
{
    let m = matching_paths(items, config);
    join_lines(&m)
}

/// The per-root output law: roots are independent. Each root's walk yields
/// its own block, computed from that root's items alone, in the order the
/// roots were given; a root with no matches keeps its empty block.
pub fn root_blocks(walks: &Vec<Vec<WalkItem>>, config: &FilterConfig) -> (r: Vec<String>)
    ensures
        r@.len() == walks@.len(),
        forall|i: int|
            0 <= i < walks@.len() ==> #[trigger] r@[i]@ == spec_join_lines(
                spec_matches(walks@[i]@, config.spec_kinds(), config.spec_patterns()),
            ),
{
    let mut r: Vec<String> = Vec::new();
    let mut i: usize = 0;
    while i < walks.len()
        invariant
            0 <= i <= walks@.len(),
            r@.len() == i,
            forall|j: int|
                0 <= j < i ==> #[trigger] r@[j]@ == spec_join_lines(
                    spec_matches(walks@[j]@, config.spec_kinds(), config.spec_patterns()),
                ),
        decreases walks@.len() - i,
    {
        let b = root_block(&walks[i], config);
        r.push(b);
        i += 1;
    }
    r
}

/// The error-isolation law: a failed item anywhere in a walk's output
/// stream leaves the matching paths exactly as they were. What a walk
/// matches is a function of its successfully classified entries alone;
/// an unreadable path costs its own entry at most, never a later one.
pub proof fn lemma_fail_does_not_change_matches(
    items: Seq<WalkItem>,
    i: int,
    e: WalkError,
    kinds: Seq<EntryKind>,
    patterns: Seq<Seq<char>>,
)
    requires
        0 <= i <= items.len(),
    ensures
        spec_matches(items.insert(i, WalkItem::Fail(e)), kinds, patterns) == spec_matches(
            items,
            kinds,
            patterns,
        ),
    decreases items.len(),
{
    let grown = items.insert(i, WalkItem::Fail(e));
    if i == items.len() {
        assert(grown.drop_last() =~= items);
        assert(grown.last() == WalkItem::Fail(e));
    } else {
        assert(grown.last() == items.last());
        assert(grown.drop_last() =~= items.drop_last().insert(i, WalkItem::Fail(e)));
        lemma_fail_does_not_change_matches(items.drop_last(), i, e, kinds, patterns);
    }
}

} // verus!
