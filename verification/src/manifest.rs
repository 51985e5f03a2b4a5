//! The manifest parser: turns Brewfile-style text into a deduplicated,
//! ordered list of installable entries, attaching the nearest preceding
//! comment block as each entry's description.

use vstd::prelude::*;

verus! {

use vstd::string::StringExecFns;
use crate::text::{
    trim_spec,
    trim_chars,
    starts_with_spec,
    starts_with_chars,
    find_char,
    find_char_in,
    find_sub,
    find_sub_in,
    digits_of,
    digits_of_chars,
    split_lines,
    split_lines_chars,
    views_of,
    chars_of,
    string_from_chars,
    subvec,
    concat_chars,
    eq_chars,
};

/// The kind of an installable entry.
#[derive(Clone, Copy, Debug, PartialEq, Eq, Structural)]
pub enum EntryKind {
    /// A package-manager formula (a library or command-line tool).
    Formula,
    /// A package-manager cask (a GUI application bundle).
    Cask,
    /// An application installed through the platform's store, addressed by
    /// a numeric identifier.
    StoreApp,
}

/// One installable unit, as the parser constructs it. Immutable after
/// parsing; all per-session state lives in the interaction layer.
#[derive(Clone, Debug)]
pub struct Entry {
    pub kind: EntryKind,
    /// The canonical name used to invoke the installer: the formula or cask
    /// name, or the numeric store-app id.
    pub identifier: String,
    /// The human-facing name shown in lists.
    pub display_label: String,
    /// Free text from the nearest preceding comment block, or a generated
    /// default.
    pub description: String,
    /// Alternate identifiers tried when the primary fails (casks only).
    pub fallback_identifiers: Vec<String>,
}

/// The mathematical model of an `Entry`.
pub ghost struct EntrySpec {
    pub kind: EntryKind,
    pub identifier: Seq<char>,
    pub display_label: Seq<char>,
    pub description: Seq<char>,
    pub fallback_identifiers: Seq<Seq<char>>,
}

impl View for Entry {
    type V = EntrySpec;

    open spec fn view(&self) -> EntrySpec {
        EntrySpec {
            kind: self.kind,
            identifier: self.identifier@,
            display_label: self.display_label@,
            description: self.description@,
            fallback_identifiers: self.fallback_identifiers@.map_values(|s: String| s@),
        }
    }
}

/// The views of a sequence of entries.
pub open spec fn entry_views(v: Seq<Entry>) -> Seq<EntrySpec> {
    v.map_values(|e: Entry| e@)
}

/// Whether an entry with this deduplication key `(kind, identifier)` is
/// already among `acc`.
pub open spec fn seen(acc: Seq<EntrySpec>, kind: EntryKind, id: Seq<char>) -> bool {
    exists|i: int|
        #![trigger acc[i]]
        0 <= i < acc.len() && acc[i].kind == kind && acc[i].identifier == id
}

/// The text between the first pair of double quotes, if the line has one.
pub open spec fn quoted_name(t: Seq<char>) -> Option<Seq<char>> {
    let q1 = find_char(t, '"', 0);
    if q1 < 0 {
        Option::None
    } else {
        let q2 = find_char(t, '"', q1 + 1);
        if q2 < 0 {
            Option::None
        } else {
            Option::Some(t.subrange(q1 + 1, q2))
        }
    }
}

pub open spec fn formula_label(name: Seq<char>) -> Seq<char> {
    name + " (brew formula)"@
}

pub open spec fn formula_default_desc(name: Seq<char>) -> Seq<char> {
    "Homebrew formula '"@ + name + "'"@
}

pub open spec fn cask_label(name: Seq<char>) -> Seq<char> {
    name + " (cask)"@
}

pub open spec fn cask_default_desc(name: Seq<char>) -> Seq<char> {
    "Homebrew cask '"@ + name + "'"@
}

pub open spec fn store_label(name: Seq<char>) -> Seq<char> {
    name + " (App Store)"@
}

pub open spec fn store_default_desc(name: Seq<char>, id: Seq<char>) -> Seq<char> {
    "Mac App Store app '"@ + name + "' (id "@ + id + ")"@
}

/// The entry a recognized declaration constructs: the pending comment block
/// becomes the description when one is present, else the generated default.
pub open spec fn made_entry(
    kind: EntryKind,
    id: Seq<char>,
    label: Seq<char>,
    default_desc: Seq<char>,
    pend: Seq<char>,
) -> EntrySpec {
    EntrySpec {
        kind: kind,
        identifier: id,
        display_label: label,
        description: if pend.len() > 0 {
            pend
        } else {
            default_desc
        },
        fallback_identifiers: Seq::empty(),
    }
}

/// Adds a recognized declaration to the accumulator unless its key was
/// already seen; either way the pending comment is consumed.
pub open spec fn add_decl(
    kind: EntryKind,
    id: Seq<char>,
    label: Seq<char>,
    default_desc: Seq<char>,
    pend: Seq<char>,
    acc: Seq<EntrySpec>,
) -> (Seq<char>, Seq<EntrySpec>) {
    if seen(acc, kind, id) {
        (Seq::empty(), acc)
    } else {
        (Seq::empty(), acc.push(made_entry(kind, id, label, default_desc, pend)))
    }
}

/// What one non-blank, non-comment (already trimmed) line contributes.
pub open spec fn parse_decl(t: Seq<char>, pend: Seq<char>, acc: Seq<EntrySpec>) -> (
    Seq<char>,
    Seq<EntrySpec>,
) {
    match quoted_name(t) {
        Option::None => (Seq::empty(), acc),
        Option::Some(name) => {
            if starts_with_spec(t, "brew "@) {
                add_decl(
                    EntryKind::Formula,
                    name,
                    formula_label(name),
                    formula_default_desc(name),
                    pend,
                    acc,
                )
            } else if starts_with_spec(t, "cask "@) {
                add_decl(EntryKind::Cask, name, cask_label(name), cask_default_desc(name), pend, acc)
            } else if starts_with_spec(t, "mas "@) {
                let k = find_sub(t, "id:"@, 0);
                if k < 0 {
                    (Seq::empty(), acc)
                } else {
                    let id = digits_of(t.skip(k + 3));
                    if id.len() == 0 {
                        (Seq::empty(), acc)
                    } else {
                        add_decl(
                            EntryKind::StoreApp,
                            id,
                            store_label(name),
                            store_default_desc(name, id),
                            pend,
                            acc,
                        )
                    }
                }
            } else {
                (Seq::empty(), acc)
            }
        },
    }
}

/// What one raw manifest line does to the pending comment block and the
/// accumulated entries.
pub open spec fn parse_line(line: Seq<char>, pend: Seq<char>, acc: Seq<EntrySpec>) -> (
    Seq<char>,
    Seq<EntrySpec>,
) {
    let t = trim_spec(line);
    if t.len() == 0 {
        (Seq::empty(), acc)
    } else if t[0] == '#' {
        let c = trim_spec(t.drop_first());
        if c.len() == 0 {
            (pend, acc)
        } else if pend.len() == 0 {
            (c, acc)
        } else {
            (pend + seq![' '] + c, acc)
        }
    } else {
        parse_decl(t, pend, acc)
    }
}

/// Folds `parse_line` over the manifest lines.
pub open spec fn parse_lines(lines: Seq<Seq<char>>, pend: Seq<char>, acc: Seq<EntrySpec>) -> Seq<
    EntrySpec,
>
    decreases lines.len(),
{
    if lines.len() == 0 {
        acc
    } else {
        let st = parse_line(lines[0], pend, acc);
        parse_lines(lines.drop_first(), st.0, st.1)
    }
}

/// The entries a manifest text parses to, in first-occurrence order.
pub open spec fn parse_spec(text: Seq<char>) -> Seq<EntrySpec> {
    parse_lines(split_lines(text), Seq::empty(), Seq::empty())
}

/// The text between the first pair of double quotes of a line.
pub fn extract_first_quoted(line: &Vec<char>) -> (r: Option<Vec<char>>)
    ensures
        (r matches Some(v) ==> quoted_name(line@) == Option::Some(v@)),
        (r is None ==> quoted_name(line@) is None),
{
    match find_char_in(line, '"', 0) {
        Option::None => Option::None,
        Option::Some(q1) => {
            match find_char_in(line, '"', q1 + 1) {
                Option::None => Option::None,
                Option::Some(q2) => Option::Some(subvec(line, q1 + 1, q2)),
            }
        },
    }
}

fn seen_in(acc: &Vec<Entry>, kind: EntryKind, id: &Vec<char>) -> (r: bool)
    ensures
        r == seen(entry_views(acc@), kind, id@),
{
    let ghost views = entry_views(acc@);
    let mut j: usize = 0;
    while j < acc.len()
        invariant
            0 <= j <= acc@.len(),
            views == entry_views(acc@),
            forall|i: int|
                #![trigger views[i]]
                0 <= i < j ==> !(views[i].kind == kind && views[i].identifier == id@),
        decreases acc.len() - j,
    {
        let same_id = {
            let cand = chars_of(acc[j].identifier.as_str());
            eq_chars(&cand, id)
        };
        if acc[j].kind == kind && same_id {
            proof {
                assert(views[j as int].kind == kind && views[j as int].identifier == id@);
            }
            return true;
        }
        j += 1;
    }
    false
}

/// Builds the `Entry` for a recognized declaration and appends it unless its
/// key was already seen; clears the pending comment either way.
fn push_decl(
    kind: EntryKind,
    id: Vec<char>,
    label: String,
    default_desc: String,
    pend: Vec<char>,
    acc: Vec<Entry>,
) -> (r: (Vec<char>, Vec<Entry>))
    ensures
        (r.0@, entry_views(r.1@)) == add_decl(
            kind,
            id@,
            label@,
            default_desc@,
            pend@,
            entry_views(acc@),
        ),
{
    let empty: Vec<char> = Vec::new();
    proof {
        assert(empty@ =~= Seq::<char>::empty());
    }
    if seen_in(&acc, kind, &id) {
        return (empty, acc);
    }
    let description = if pend.len() > 0 {
        string_from_chars(&pend)
    } else {
        default_desc
    };
    let entry = Entry {
        kind,
        identifier: string_from_chars(&id),
        display_label: label,
        description,
        fallback_identifiers: Vec::new(),
    };
    proof {
        assert(entry@.fallback_identifiers =~= Seq::<Seq<char>>::empty());
        assert(entry@ == made_entry(kind, id@, label@, default_desc@, pend@));
    }
    let mut acc2 = acc;
    proof {
        assert(entry_views(acc2@.push(entry)) =~= entry_views(acc2@).push(entry@));
    }
    acc2.push(entry);
    (empty, acc2)
}

/// Applies one raw manifest line to the parse state.
fn apply_line(line: &Vec<char>, pend: Vec<char>, acc: Vec<Entry>) -> (r: (Vec<char>, Vec<Entry>))
    ensures
        (r.0@, entry_views(r.1@)) == parse_line(line@, pend@, entry_views(acc@)),
{
    let empty: Vec<char> = Vec::new();
    proof {
        assert(empty@ =~= Seq::<char>::empty());
    }
    let t = trim_chars(line);
    if t.len() == 0 {
        return (empty, acc);
    }
    if t[0] == '#' {
        let after = subvec(&t, 1, t.len());
        proof {
            assert(after@ =~= t@.drop_first());
        }
        let c = trim_chars(&after);
        if c.len() == 0 {
            return (pend, acc);
        }
        if pend.len() == 0 {
            return (c, acc);
        }
        let mut joined = pend;
        let ghost p0 = joined@;
        joined.push(' ');
        proof {
            assert(joined@ =~= p0 + seq![' ']);
        }
        let joined = concat_chars(joined, &c);
        return (joined, acc);
    }
    let name = match extract_first_quoted(&t) {
        Option::None => {
            return (empty, acc);
        },
        Option::Some(name) => name,
    };
    let brew_pat = chars_of("brew ");
    if starts_with_chars(&t, &brew_pat) {
        let name_s = string_from_chars(&name);
        let mut label = name_s.clone();
        label.append(" (brew formula)");
        let mut desc = String::from_str("Homebrew formula '");
        desc.append(name_s.as_str());
        desc.append("'");
        return push_decl(EntryKind::Formula, name, label, desc, pend, acc);
    }
    let cask_pat = chars_of("cask ");
    if starts_with_chars(&t, &cask_pat) {
        let name_s = string_from_chars(&name);
        let mut label = name_s.clone();
        label.append(" (cask)");
        let mut desc = String::from_str("Homebrew cask '");
        desc.append(name_s.as_str());
        desc.append("'");
        return push_decl(EntryKind::Cask, name, label, desc, pend, acc);
    }
    let mas_pat = chars_of("mas ");
    if starts_with_chars(&t, &mas_pat) {
        let id_pat = chars_of("id:");
        proof {
            reveal_strlit("id:");
        }
        let k = match find_sub_in(&t, &id_pat) {
            Option::None => {
                return (empty, acc);
            },
            Option::Some(k) => k,
        };
        let tail = subvec(&t, k + 3, t.len());
        proof {
            assert(tail@ =~= t@.skip(k + 3));
        }
        let id = digits_of_chars(&tail);
        if id.len() == 0 {
            return (empty, acc);
        }
        let name_s = string_from_chars(&name);
        let id_s = string_from_chars(&id);
        let mut label = name_s.clone();
        label.append(" (App Store)");
        let mut desc = String::from_str("Mac App Store app '");
        desc.append(name_s.as_str());
        desc.append("' (id ");
        desc.append(id_s.as_str());
        desc.append(")");
        return push_decl(EntryKind::StoreApp, id, label, desc, pend, acc);
    }
    (empty, acc)
}

/// Parses a manifest text into its entries, in first-occurrence order, with
/// duplicate `(kind, identifier)` keys dropped.
pub fn parse_manifest(text: &str) -> (r: Vec<Entry>)
    ensures
        entry_views(r@) == parse_spec(text@),
{
    let cs = chars_of(text);
    let lines = split_lines_chars(&cs);
    let ghost line_views = views_of(lines@);
    let mut pend: Vec<char> = Vec::new();
    let mut acc: Vec<Entry> = Vec::new();
    let mut i: usize = 0;
    proof {
        assert(pend@ =~= Seq::<char>::empty());
        assert(entry_views(acc@) =~= Seq::<EntrySpec>::empty());
        assert(line_views.skip(0) =~= line_views);
    }
    while i < lines.len()
        invariant
            0 <= i <= lines@.len(),
            line_views == views_of(lines@),
            parse_lines(line_views.skip(i as int), pend@, entry_views(acc@)) == parse_spec(text@),
        decreases lines.len() - i,
    {
        let ghost pend0 = pend@;
        let ghost acc0 = entry_views(acc@);
        let st = apply_line(&lines[i], pend, acc);
        pend = st.0;
        acc = st.1;
        proof {
            let rem = line_views.skip(i as int);
            assert(rem[0] == lines@[i as int]@);
            assert(rem.drop_first() =~= line_views.skip(i + 1));
            assert(parse_lines(rem, pend0, acc0) == parse_lines(
                line_views.skip(i + 1),
                pend@,
                entry_views(acc@),
            ));
        }
        i += 1;
    }
    proof {
        assert(line_views.skip(lines@.len() as int) =~= Seq::<Seq<char>>::empty());
    }
    acc
}

/// Whether no two entries share a `(kind, identifier)` deduplication key.
pub open spec fn unique_keys(acc: Seq<EntrySpec>) -> bool {
    forall|i: int, j: int|
        #![trigger acc[i], acc[j]]
        0 <= i < j < acc.len() ==> !(acc[i].kind == acc[j].kind && acc[i].identifier
            == acc[j].identifier)
}

proof fn lemma_push_unique(acc: Seq<EntrySpec>, e: EntrySpec)
    requires
        unique_keys(acc),
        !seen(acc, e.kind, e.identifier),
    ensures
        unique_keys(acc.push(e)),
{
    let r = acc.push(e);
    assert forall|i: int, j: int|
        0 <= i < j < r.len() implies !(r[i].kind == r[j].kind && r[i].identifier
        == r[j].identifier) by {
        if j == acc.len() {
            assert(r[i] == acc[i]);
            assert(!(acc[i].kind == e.kind && acc[i].identifier == e.identifier));
        } else {
            assert(r[i] == acc[i] && r[j] == acc[j]);
        }
    }
}

proof fn lemma_parse_line_unique(line: Seq<char>, pend: Seq<char>, acc: Seq<EntrySpec>)
    requires
        unique_keys(acc),
    ensures
        unique_keys(parse_line(line, pend, acc).1),
{
    let t = trim_spec(line);
    if t.len() == 0 || t[0] == '#' {
    } else {
        match quoted_name(t) {
            Option::None => {},
            Option::Some(name) => {
                if starts_with_spec(t, "brew "@) {
                    if !seen(acc, EntryKind::Formula, name) {
                        lemma_push_unique(
                            acc,
                            made_entry(
                                EntryKind::Formula,
                                name,
                                formula_label(name),
                                formula_default_desc(name),
                                pend,
                            ),
                        );
                    }
                } else if starts_with_spec(t, "cask "@) {
                    if !seen(acc, EntryKind::Cask, name) {
                        lemma_push_unique(
                            acc,
                            made_entry(
                                EntryKind::Cask,
                                name,
                                cask_label(name),
                                cask_default_desc(name),
                                pend,
                            ),
                        );
                    }
                } else if starts_with_spec(t, "mas "@) {
                    let k = find_sub(t, "id:"@, 0);
                    if k >= 0 {
                        let id = digits_of(t.skip(k + 3));
                        if id.len() > 0 && !seen(acc, EntryKind::StoreApp, id) {
                            lemma_push_unique(
                                acc,
                                made_entry(
                                    EntryKind::StoreApp,
                                    id,
                                    store_label(name),
                                    store_default_desc(name, id),
                                    pend,
                                ),
                            );
                        }
                    }
                }
            },
        }
    }
}

proof fn lemma_parse_lines_unique(lines: Seq<Seq<char>>, pend: Seq<char>, acc: Seq<EntrySpec>)
    requires
        unique_keys(acc),
    ensures
        unique_keys(parse_lines(lines, pend, acc)),
    decreases lines.len(),
{
    if lines.len() > 0 {
        let st = parse_line(lines[0], pend, acc);
        lemma_parse_line_unique(lines[0], pend, acc);
        lemma_parse_lines_unique(lines.drop_first(), st.0, st.1);
    }
}

/// Deduplication law: no two entries of a parse share a `(kind, identifier)`
/// key — in particular, a manifest naming the same formula twice yields it
/// only once.
pub proof fn lemma_parse_deduplicates(text: Seq<char>)
    ensures
        unique_keys(parse_spec(text)),
{
    lemma_parse_lines_unique(split_lines(text), Seq::empty(), Seq::empty());
}

/// Determinism law: the parse result is a function of the text alone, so two
/// parses of identical input yield identical entry lists.
pub proof fn lemma_parse_deterministic(text: Seq<char>, r1: Seq<EntrySpec>, r2: Seq<EntrySpec>)
    requires
        r1 == parse_spec(text),
        r2 == parse_spec(text),
    ensures
        r1 == r2,
{
}

/// Comment-attachment law, first half: a blank line discards any pending
/// comment block.
pub proof fn lemma_blank_line_resets(
    line: Seq<char>,
    rest: Seq<Seq<char>>,
    pend: Seq<char>,
    acc: Seq<EntrySpec>,
)
    requires
        trim_spec(line).len() == 0,
    ensures
        parse_lines(seq![line] + rest, pend, acc) == parse_lines(rest, Seq::empty(), acc),
{
    let lines = seq![line] + rest;
    assert(lines[0] == line);
    assert(lines.drop_first() =~= rest);
}

/// Comment-attachment law, second half: a comment line with text becomes the
/// pending comment block when none is pending.
pub proof fn lemma_comment_accumulates(
    line: Seq<char>,
    rest: Seq<Seq<char>>,
    acc: Seq<EntrySpec>,
)
    requires
        trim_spec(line).len() > 0,
        trim_spec(line)[0] == '#',
        trim_spec(trim_spec(line).drop_first()).len() > 0,
    ensures
        parse_lines(seq![line] + rest, Seq::empty(), acc) == parse_lines(
            rest,
            trim_spec(trim_spec(line).drop_first()),
            acc,
        ),
{
    let lines = seq![line] + rest;
    assert(lines[0] == line);
    assert(lines.drop_first() =~= rest);
}

/// Comment-attachment law, last part: a fresh formula declaration takes the
/// pending comment block as its description when one is pending, and the
/// generated default otherwise.
pub proof fn lemma_pending_becomes_description(
    line: Seq<char>,
    rest: Seq<Seq<char>>,
    pend: Seq<char>,
    acc: Seq<EntrySpec>,
)
    requires
        quoted_name(trim_spec(line)) matches Some(name) && starts_with_spec(
            trim_spec(line),
            "brew "@,
        ) && !seen(acc, EntryKind::Formula, name),
    ensures
        quoted_name(trim_spec(line)) matches Some(name) ==> {
            let e = made_entry(
                EntryKind::Formula,
                name,
                formula_label(name),
                formula_default_desc(name),
                pend,
            );
            parse_lines(seq![line] + rest, pend, acc) == parse_lines(
                rest,
                Seq::empty(),
                acc.push(e),
            ) && e.description == (if pend.len() > 0 {
                pend
            } else {
                formula_default_desc(name)
            })
        },
{
    let lines = seq![line] + rest;
    assert(lines[0] == line);
    assert(lines.drop_first() =~= rest);
    let t = trim_spec(line);
    reveal_strlit("brew ");
    let p = "brew "@;
    assert(p.len() == 5 && p[0] == 'b');
    assert(starts_with_spec(t, p));
    assert(t.take(5) == p);
    assert(t[0] == t.take(5)[0]);
    assert(t.len() > 0 && t[0] == 'b');
}

/// Comment-attachment law, for every declaration kind: whenever a line's
/// declaration is accepted while a comment block is pending, the new entry's
/// description is exactly that block.
pub proof fn lemma_description_from_pending(t: Seq<char>, pend: Seq<char>, acc: Seq<EntrySpec>)
    requires
        pend.len() > 0,
        parse_decl(t, pend, acc).1.len() == acc.len() + 1,
    ensures
        parse_decl(t, pend, acc).1.last().description == pend,
{
    match quoted_name(t) {
        Option::None => {},
        Option::Some(name) => {
            if starts_with_spec(t, "brew "@) {
            } else if starts_with_spec(t, "cask "@) {
            } else if starts_with_spec(t, "mas "@) {
                let k = find_sub(t, "id:"@, 0);
                if k >= 0 {
                    let id = digits_of(t.skip(k + 3));
                    if id.len() > 0 && !seen(acc, EntryKind::StoreApp, id) {
                        assert(parse_decl(t, pend, acc).1.last() == made_entry(
                            EntryKind::StoreApp,
                            id,
                            store_label(name),
                            store_default_desc(name, id),
                            pend,
                        ));
                    }
                }
            }
        },
    }
}

/// Parses a manifest and fails when it holds no recognized entry: the caller
/// must not start the interactive phase on an empty list.
pub fn parse_entries(text: &str) -> (r: Result<Vec<Entry>, String>)
    ensures
        (r matches Ok(v) ==> entry_views(v@) == parse_spec(text@) && parse_spec(text@).len() > 0),
        (r matches Err(m) ==> parse_spec(text@).len() == 0 && m@
            == "Brewfile did not contain any brew/cask/mas entries"@),
{
    let entries = parse_manifest(text);
    if entries.len() == 0 {
        proof {
            assert(entry_views(entries@).len() == entries@.len());
        }
        Result::Err(String::from_str("Brewfile did not contain any brew/cask/mas entries"))
    } else {
        Result::Ok(entries)
    }
}

} // verus!
