//! The list of a directory's entries, as shown where a directory has no index
//! page.
//!
//! Entries are shown by name, a directory with a slash behind it, in the order
//! of their characters' code points; below the top directory a link to the
//! parent comes first. In ignore mode an entry is shown only where its check
//! went through and said "not ignored".

use crate::ignore_filter::{
    agrees, ignore_verdict, is_ignored, IgnoreError, RuleFile, RuleFileView,
};
use crate::paths::{lemma_rest_is_well_formed, texts, well_formed};
use vstd::prelude::*;
use vstd::string::*;

verus! {

/// One entry of a directory.
#[derive(Debug)]
pub struct DirEntry {
    /// The entry's name, without any directory before it.
    pub name: String,
    /// Whether the entry is a directory.
    pub is_dir: bool,
}

/// `a` comes before `b`, or is equal to it, character by character.
pub open spec fn lex_le(a: Seq<char>, b: Seq<char>) -> bool
    decreases a.len(),
{
    if a.len() == 0 {
        true
    } else if b.len() == 0 {
        false
    } else if a[0] != b[0] {
        (a[0] as u32) < (b[0] as u32)
    } else {
        lex_le(a.skip(1), b.skip(1))
    }
}

/// Each label is followed by one that does not come before it.
pub open spec fn ordered(labels: Seq<Seq<char>>) -> bool {
    forall|i: int| 0 <= i < labels.len() - 1 ==> lex_le(#[trigger] labels[i], labels[i + 1])
}

/// `label` put into an ordered list, behind the labels that do not come
/// after it.
pub open spec fn insert_sorted(labels: Seq<Seq<char>>, label: Seq<char>) -> Seq<Seq<char>>
    decreases labels.len(),
{
    if labels.len() == 0 {
        seq![label]
    } else if lex_le(labels.last(), label) {
        labels.push(label)
    } else {
        insert_sorted(labels.drop_last(), label).push(labels.last())
    }
}

/// The labels in order.
pub open spec fn sorted_labels(labels: Seq<Seq<char>>) -> Seq<Seq<char>>
    decreases labels.len(),
{
    if labels.len() == 0 {
        Seq::empty()
    } else {
        insert_sorted(sorted_labels(labels.drop_last()), labels.last())
    }
}

/// How an entry is shown: its name, with a slash behind a directory.
pub open spec fn label_of(entry: DirEntry) -> Seq<char> {
    if entry.is_dir {
        entry.name@ + seq!['/']
    } else {
        entry.name@
    }
}

/// Whether an entry is shown: always outside ignore mode; in ignore mode only
/// when its check said "not ignored".
pub open spec fn is_shown(auto_ignore: bool, verdict: Result<bool, IgnoreError>) -> bool {
    !auto_ignore || verdict == Ok::<bool, IgnoreError>(false)
}

/// The labels of the first `n` entries that are shown, in the directory's
/// order.
pub open spec fn shown_labels(
    entries: Seq<DirEntry>,
    auto_ignore: bool,
    verdicts: Seq<Result<bool, IgnoreError>>,
    n: int,
) -> Seq<Seq<char>>
    decreases n,
{
    if n <= 0 {
        Seq::empty()
    } else if !auto_ignore || (n <= verdicts.len() && is_shown(auto_ignore, verdicts[n - 1])) {
        shown_labels(entries, auto_ignore, verdicts, n - 1).push(label_of(entries[n - 1]))
    } else {
        shown_labels(entries, auto_ignore, verdicts, n - 1)
    }
}

/// The label of the link to the parent directory.
pub open spec fn parent_label() -> Seq<char> {
    seq!['.', '.']
}

/// The labels of a listing: the sorted labels, behind the parent link unless
/// the directory is the top one.
pub open spec fn listed_labels(is_root: bool, labels: Seq<Seq<char>>) -> Seq<Seq<char>> {
    if is_root {
        sorted_labels(labels)
    } else {
        seq![parent_label()] + sorted_labels(labels)
    }
}

/// One list item: a link whose target and text are the label.
pub open spec fn item_html(label: Seq<char>) -> Seq<char> {
    "<li><a href=\""@ + label + "\">"@ + label + "</a></li>"@
}

/// The list items of the labels, one per line.
pub open spec fn items_html(labels: Seq<Seq<char>>) -> Seq<char>
    decreases labels.len(),
{
    if labels.len() == 0 {
        Seq::empty()
    } else if labels.len() == 1 {
        item_html(labels[0])
    } else {
        items_html(labels.drop_last()) + seq!['\n'] + item_html(labels.last())
    }
}

/// The request path of the top directory.
pub open spec fn root_uri() -> Seq<char> {
    seq!['/']
}

/// Whether `a` comes before `b` or equals it.
pub fn label_le(a: &str, b: &str) -> (r: bool)
    ensures
        r == lex_le(a@, b@),
{
    let a_len: usize = a.unicode_len();
    let b_len: usize = b.unicode_len();
    let mut i: usize = 0;
    proof {
        assert(a@.skip(0) =~= a@);
        assert(b@.skip(0) =~= b@);
    }
    while i < a_len && i < b_len
        invariant
            i <= a_len,
            i <= b_len,
            a_len == a@.len(),
            b_len == b@.len(),
            lex_le(a@, b@) == lex_le(a@.skip(i as int), b@.skip(i as int)),
        decreases a_len - i,
    {
        let x: char = a.get_char(i);
        let y: char = b.get_char(i);
        proof {
            assert(a@.skip(i as int)[0] == x);
            assert(b@.skip(i as int)[0] == y);
            assert(a@.skip(i as int).skip(1) =~= a@.skip(i + 1));
            assert(b@.skip(i as int).skip(1) =~= b@.skip(i + 1));
        }
        if x != y {
            return (x as u32) < (y as u32);
        }
        i += 1;
    }
    i == a_len
}

/// Where every label from `at` on comes after `label`, and the one before
/// `at` does not, `label` is inserted at `at`.
proof fn lemma_insert_position(labels: Seq<Seq<char>>, label: Seq<char>, at: int)
    requires
        0 <= at <= labels.len(),
        forall|k: int| at <= k < labels.len() ==> !lex_le(#[trigger] labels[k], label),
        at > 0 ==> lex_le(labels[at - 1], label),
    ensures
        insert_sorted(labels, label) == labels.insert(at, label),
    decreases labels.len(),
{
    if labels.len() == 0 {
        assert(labels.insert(0, label) =~= seq![label]);
    } else if at == labels.len() {
        assert(labels.insert(at, label) =~= labels.push(label));
    } else {
        assert(!lex_le(labels[labels.len() - 1], label));
        lemma_insert_position(labels.drop_last(), label, at);
        assert(labels.drop_last().insert(at, label).push(labels.last()) =~= labels.insert(
            at,
            label,
        ));
    }
}

/// Sorts the labels by the code points of their characters.
pub fn sort_labels(labels: &Vec<String>) -> (sorted: Vec<String>)
    ensures
        texts(sorted@) == sorted_labels(texts(labels@)),
{
    let mut sorted: Vec<String> = Vec::new();
    let mut i: usize = 0;
    proof {
        assert(texts(sorted@) =~= sorted_labels(texts(labels@).take(0)));
    }
    while i < labels.len()
        invariant
            i <= labels.len(),
            texts(sorted@) == sorted_labels(texts(labels@).take(i as int)),
        decreases labels.len() - i,
    {
        let label: String = labels[i].clone();
        let mut at: usize = sorted.len();
        while at > 0 && !label_le(sorted[at - 1].as_str(), label.as_str())
            invariant
                at <= sorted.len(),
                forall|k: int|
                    at <= k < sorted@.len() ==> !lex_le(#[trigger] texts(sorted@)[k], label@),
            decreases at,
        {
            at -= 1;
        }
        proof {
            lemma_insert_position(texts(sorted@), label@, at as int);
            let next = texts(labels@).take(i + 1);
            assert(next.drop_last() =~= texts(labels@).take(i as int));
            assert(next.last() == label@);
            assert(texts(sorted@.insert(at as int, label)) =~= texts(sorted@).insert(
                at as int,
                label@,
            ));
        }
        sorted.insert(at, label);
        i += 1;
    }
    proof {
        assert(texts(labels@).take(labels@.len() as int) =~= texts(labels@));
    }
    sorted
}

/// Writes the list items of the labels, one per line.
pub fn render_items(labels: &Vec<String>) -> (html: String)
    ensures
        html@ == items_html(texts(labels@)),
{
    let mut html = String::new();
    let mut i: usize = 0;
    while i < labels.len()
        invariant
            i <= labels.len(),
            html@ == items_html(texts(labels@).take(i as int)),
        decreases labels.len() - i,
    {
        proof {
            let before = texts(labels@).take(i as int);
            let after = texts(labels@).take(i + 1);
            assert(after.drop_last() =~= before);
            assert(after.last() == labels@[i as int]@);
            assert(Seq::<char>::empty() + "<li><a href=\""@ =~= "<li><a href=\""@);
        }
        if i > 0 {
            html.append("\n");
            proof {
                reveal_strlit("\n");
                assert("\n"@ =~= seq!['\n']);
            }
        }
        let ghost start = html@;
        html.append("<li><a href=\"");
        html.append(labels[i].as_str());
        html.append("\">");
        html.append(labels[i].as_str());
        html.append("</a></li>");
        proof {
            assert(html@ =~= start + item_html(labels@[i as int]@));
        }
        i += 1;
    }
    proof {
        assert(texts(labels@).take(labels@.len() as int) =~= texts(labels@));
    }
    html
}

/// The names of the entries are well-formed names.
pub open spec fn entries_well_formed(entries: Seq<DirEntry>) -> bool {
    forall|i: int|
        0 <= i < entries.len() ==> (#[trigger] entries[i]).name@.len() > 0
            && !entries[i].name@.contains('/')
}

/// The ignore verdict of an entry of the directory `dir`: that of the path
/// made of the directory's names and the entry's name.
pub open spec fn entry_verdict(
    dir: Seq<Seq<char>>,
    entry: DirEntry,
    root: Seq<Seq<char>>,
    rules: RuleFileView,
) -> Option<bool> {
    ignore_verdict(root, dir.push(entry.name@), entry.is_dir, rules)
}

/// Checks each entry of the directory `dir` against the ignore rules of
/// `root`, in the directory's order.
pub fn entry_verdicts(
    dir: &Vec<String>,
    entries: &Vec<DirEntry>,
    root: &Vec<String>,
    rules: &RuleFile,
) -> (verdicts: Vec<Result<bool, IgnoreError>>)
    requires
        well_formed(texts(dir@)),
        entries_well_formed(entries@),
    ensures
        verdicts@.len() == entries@.len(),
        forall|i: int|
            0 <= i < entries@.len() ==> agrees(
                #[trigger] verdicts@[i],
                entry_verdict(texts(dir@), entries@[i], texts(root@), rules@),
            ),
{
    let mut verdicts: Vec<Result<bool, IgnoreError>> = Vec::new();
    let mut i: usize = 0;
    while i < entries.len()
        invariant
            i <= entries.len(),
            verdicts@.len() == i,
            well_formed(texts(dir@)),
            entries_well_formed(entries@),
            forall|k: int|
                0 <= k < i ==> agrees(
                    #[trigger] verdicts@[k],
                    entry_verdict(texts(dir@), entries@[k], texts(root@), rules@),
                ),
        decreases entries.len() - i,
    {
        let mut path: Vec<String> = dir.clone();
        path.push(entries[i].name.clone());
        proof {
            let names = texts(path@);
            assert(names =~= texts(dir@).push(entries@[i as int].name@));
            assert(entries@[i as int].name@.len() > 0);
            assert(well_formed(names));
            if texts(root@).is_prefix_of(names) {
                lemma_rest_is_well_formed(names, root@.len() as int);
            }
        }
        let verdict = is_ignored(root, &path, entries[i].is_dir, rules);
        verdicts.push(verdict);
        i += 1;
    }
    verdicts
}

/// Writes the list of a directory's entries for the request path `uri_path`.
///
/// The entries that are shown are labelled, sorted, preceded by `..` unless
/// the request is for `/`, and written as one list item per line. In ignore
/// mode `verdicts` holds the outcome of the ignore check for each entry, and
/// an entry is shown only where that outcome is "not ignored".
pub fn get_index_listing(
    uri_path: &str,
    entries: &Vec<DirEntry>,
    auto_ignore: bool,
    verdicts: &Vec<Result<bool, IgnoreError>>,
) -> (html: String)
    requires
        auto_ignore ==> verdicts@.len() == entries@.len(),
    ensures
        html@ == items_html(
            listed_labels(
                uri_path@ == root_uri(),
                shown_labels(entries@, auto_ignore, verdicts@, entries@.len() as int),
            ),
        ),
{
    let mut labels: Vec<String> = Vec::new();
    let mut i: usize = 0;
    while i < entries.len()
        invariant
            i <= entries.len(),
            auto_ignore ==> verdicts@.len() == entries@.len(),
            texts(labels@) == shown_labels(entries@, auto_ignore, verdicts@, i as int),
        decreases entries.len() - i,
    {
        let shown: bool = if auto_ignore {
            match &verdicts[i] {
                Ok(ignored) => !*ignored,
                Err(_) => false,
            }
        } else {
            true
        };
        if shown {
            let mut label: String = entries[i].name.clone();
            if entries[i].is_dir {
                label.append("/");
                proof {
                    reveal_strlit("/");
                    assert("/"@ =~= seq!['/']);
                }
            }
            proof {
                assert(texts(labels@.push(label)) =~= texts(labels@).push(label@));
            }
            labels.push(label);
        }
        i += 1;
    }
    let sorted: Vec<String> = sort_labels(&labels);
    let is_root: bool = String::from_str(uri_path) == String::from_str("/");
    proof {
        reveal_strlit("/");
        assert("/"@ =~= root_uri());
    }
    let listed: Vec<String> = if is_root {
        sorted
    } else {
        let mut listed: Vec<String> = Vec::new();
        listed.push(String::from_str(".."));
        let mut k: usize = 0;
        proof {
            reveal_strlit("..");
            assert(".."@ =~= parent_label());
            assert(texts(listed@) =~= seq![parent_label()] + texts(sorted@).take(0));
        }
        while k < sorted.len()
            invariant
                k <= sorted.len(),
                texts(listed@) == seq![parent_label()] + texts(sorted@).take(k as int),
            decreases sorted.len() - k,
        {
            proof {
                let next = sorted@[k as int];
                assert(texts(sorted@).take(k + 1) =~= texts(sorted@).take(k as int).push(next@));
                assert(texts(listed@.push(next)) =~= texts(listed@).push(next@));
                assert(texts(listed@).push(next@) =~= seq![parent_label()] + texts(sorted@).take(
                    k + 1,
                ));
            }
            listed.push(sorted[k].clone());
            k += 1;
        }
        proof {
            assert(texts(sorted@).take(sorted@.len() as int) =~= texts(sorted@));
        }
        listed
    };
    render_items(&listed)
}

/// Two different characters have different code points.
proof fn lemma_distinct_code_points(x: char, y: char)
    requires
        x != y,
    ensures
        (x as u32) != (y as u32),
{
}

/// Of two labels, one comes before the other or they are equal.
pub proof fn lemma_lex_total(a: Seq<char>, b: Seq<char>)
    ensures
        lex_le(a, b) || lex_le(b, a),
    decreases a.len(),
{
    if a.len() > 0 && b.len() > 0 {
        if a[0] == b[0] {
            lemma_lex_total(a.skip(1), b.skip(1));
        } else {
            lemma_distinct_code_points(a[0], b[0]);
        }
    }
}

/// Inserting a label into an ordered list gives an ordered list that holds
/// the label and what the list held, and nothing else.
pub proof fn lemma_insert_keeps_order(labels: Seq<Seq<char>>, label: Seq<char>)
    requires
        ordered(labels),
    ensures
        ordered(insert_sorted(labels, label)),
        insert_sorted(labels, label).len() == labels.len() + 1,
        insert_sorted(labels, label).last() == label || (labels.len() > 0 && insert_sorted(
            labels,
            label,
        ).last() == labels.last()),
        insert_sorted(labels, label).to_multiset() == labels.to_multiset().insert(label),
    decreases labels.len(),
{
    broadcast use vstd::seq_lib::group_to_multiset_ensures;

    if labels.len() == 0 {
        assert(labels =~= Seq::<Seq<char>>::empty());
        assert(seq![label] =~= Seq::<Seq<char>>::empty().push(label));
    } else if lex_le(labels.last(), label) {
    } else {
        let front = labels.drop_last();
        let last = labels.last();
        assert(ordered(front));
        lemma_insert_keeps_order(front, label);
        lemma_lex_total(last, label);
        let placed = insert_sorted(front, label);
        assert(labels =~= front.push(last));
        assert(placed.push(last).to_multiset() =~= labels.to_multiset().insert(label));
        assert(lex_le(placed.last(), last)) by {
            if placed.last() != label {
                assert(lex_le(labels[labels.len() - 2], labels[labels.len() - 2 + 1]));
            }
        }
        assert forall|i: int| 0 <= i < placed.push(last).len() - 1 implies lex_le(
            #[trigger] placed.push(last)[i],
            placed.push(last)[i + 1],
        ) by {
            if i < placed.len() - 1 {
                assert(lex_le(placed[i], placed[i + 1]));
            }
        }
    }
}

/// The sorted labels are in order.
pub proof fn lemma_sorted_is_ordered(labels: Seq<Seq<char>>)
    ensures
        ordered(sorted_labels(labels)),
    decreases labels.len(),
{
    if labels.len() > 0 {
        lemma_sorted_is_ordered(labels.drop_last());
        lemma_insert_keeps_order(sorted_labels(labels.drop_last()), labels.last());
    }
}

/// The sorted labels are the given labels, each as often as it was given.
pub proof fn lemma_sorted_is_permutation(labels: Seq<Seq<char>>)
    ensures
        sorted_labels(labels).to_multiset() == labels.to_multiset(),
        sorted_labels(labels).len() == labels.len(),
    decreases labels.len(),
{
    broadcast use vstd::seq_lib::group_to_multiset_ensures;

    if labels.len() > 0 {
        lemma_sorted_is_permutation(labels.drop_last());
        lemma_sorted_is_ordered(labels.drop_last());
        lemma_insert_keeps_order(sorted_labels(labels.drop_last()), labels.last());
        assert(labels =~= labels.drop_last().push(labels.last()));
    } else {
        assert(labels =~= Seq::<Seq<char>>::empty());
    }
}

/// Below the top directory a listing opens with the link to the parent and
/// goes on with the sorted labels; at the top it holds the sorted labels
/// only.
pub proof fn lemma_listing_opens_with_parent(is_root: bool, labels: Seq<Seq<char>>)
    ensures
        !is_root ==> listed_labels(is_root, labels).len() == labels.len() + 1 && listed_labels(
            is_root,
            labels,
        )[0] == parent_label() && listed_labels(is_root, labels).skip(1) == sorted_labels(labels),
        is_root ==> listed_labels(is_root, labels) == sorted_labels(labels),
        ordered(sorted_labels(labels)),
{
    lemma_sorted_is_permutation(labels);
    lemma_sorted_is_ordered(labels);
    if !is_root {
        assert(listed_labels(is_root, labels).skip(1) =~= sorted_labels(labels));
    }
}

/// In ignore mode an entry whose check did not say "not ignored" is not
/// shown: the labels are those of the entries before it.
pub proof fn lemma_ignored_entry_is_not_shown(
    entries: Seq<DirEntry>,
    verdicts: Seq<Result<bool, IgnoreError>>,
    n: int,
)
    requires
        0 < n <= entries.len(),
        verdicts.len() == entries.len(),
        verdicts[n - 1] != Ok::<bool, IgnoreError>(false),
    ensures
        shown_labels(entries, true, verdicts, n) == shown_labels(entries, true, verdicts, n - 1),
{
}

} // verus!
