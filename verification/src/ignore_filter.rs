//! Which paths are kept from viewers: dotfiles, and what the root's
//! `.gitignore` names.
//!
//! The rule file is handed in as the lines that were read from it; the
//! matching itself is done by the `ignore` crate, rebuilt from those lines on
//! every check, so nothing is cached between two checks.

use crate::paths::{
    any_hidden, has_hidden_name, is_hidden_name, join, joined, lemma_joined_is_relative,
    starts_with, strip_prefix, texts, well_formed,
};
use ignore::gitignore::{Gitignore, GitignoreBuilder};
use vstd::prelude::*;
use vstd::string::*;

verus! {

/// The `ignore` crate's matcher for one rule file; nothing inside it is
/// visible here.
#[verifier::external_type_specification]
#[verifier::external_body]
pub struct ExGitignore(ignore::gitignore::Gitignore);

/// The `ignore` crate's builder of such a matcher; nothing inside it is
/// visible here.
#[verifier::external_type_specification]
#[verifier::external_body]
pub struct ExGitignoreBuilder(ignore::gitignore::GitignoreBuilder);

/// The `ignore` crate's error; it is only carried to where its text is
/// taken.
#[verifier::external_type_specification]
#[verifier::external_body]
pub struct ExIgnoreError(ignore::Error);

/// A rule file that could not be understood.
#[derive(Debug)]
pub struct IgnoreError {
    /// What the rule parser said.
    pub message: String,
}

/// The root's rule file, as the caller found it on disk.
#[derive(Debug)]
pub enum RuleFile {
    /// There is no rule file.
    Missing,
    /// The lines of the file, in order, without their line ends.
    Lines(Vec<String>),
    /// The file is there and could not be read; the text says why.
    Unreadable(String),
}

/// A rule file as plain values.
pub enum RuleFileView {
    /// There is no rule file.
    Missing,
    /// The lines of the file, in order.
    Lines(Seq<Seq<char>>),
    /// The file is there and could not be read; the text says why.
    Unreadable(Seq<char>),
}

impl View for RuleFile {
    type V = RuleFileView;

    open spec fn view(&self) -> RuleFileView {
        match self {
            RuleFile::Missing => RuleFileView::Missing,
            RuleFile::Lines(lines) => RuleFileView::Lines(texts(lines@)),
            RuleFile::Unreadable(reason) => RuleFileView::Unreadable(reason@),
        }
    }
}

/// The byte-order mark that may open a rule file.
pub open spec fn bom() -> char {
    '\u{feff}'
}

/// The text without the byte-order marks at its start.
pub open spec fn without_bom(text: Seq<char>) -> Seq<char>
    decreases text.len(),
{
    if text.len() > 0 && text[0] == bom() {
        without_bom(text.skip(1))
    } else {
        text
    }
}

/// Whether `target` lies below `root` with a hidden name on the way down from
/// the root. The names of the root itself do not count.
pub open spec fn hidden_below(root: Seq<Seq<char>>, target: Seq<Seq<char>>) -> bool {
    root.is_prefix_of(target) && has_hidden_name(target.skip(root.len() as int))
}

/// The rules that a rule builder holds, in the order in which they were
/// added: each as the text that the builder stored of its line.
pub uninterp spec fn held_lines(builder: GitignoreBuilder) -> Seq<Seq<char>>;

/// What the rule builder stores of a line that it takes: nothing for a
/// comment or a blank line, and otherwise the line without the blanks at its
/// end, which stay only behind a backslash.
pub uninterp spec fn stored_rule(line: Seq<char>) -> Option<Seq<char>>;

/// The directory that a rule builder was made for.
pub uninterp spec fn builder_root(builder: GitignoreBuilder) -> Seq<char>;

/// The rules from which a matcher was built, as the builder held them.
pub uninterp spec fn matcher_lines(matcher: Gitignore) -> Seq<Seq<char>>;

/// The directory that a matcher was built for.
pub uninterp spec fn matcher_root(matcher: Gitignore) -> Seq<char>;

/// Whether the `ignore` crate accepts a line of a rule file: a comment, a
/// blank line or a pattern that it can parse.
pub uninterp spec fn valid_rule_line(line: Seq<char>) -> bool;

/// Whether the `ignore` crate can build a matcher from these stored rules.
pub uninterp spec fn buildable(lines: Seq<Seq<char>>) -> bool;

/// Whether a matcher built for the directory `root` from the stored rules
/// `lines` ignores the relative `path`, or a directory above it; `is_dir`
/// says whether the path names a directory.
pub uninterp spec fn rules_match(
    lines: Seq<Seq<char>>,
    root: Seq<char>,
    path: Seq<char>,
    is_dir: bool,
) -> bool;

/// `GitignoreBuilder::new` of the `ignore` crate: a builder that holds no
/// line yet and matches relative to `root`. The crate drops a leading `./`
/// from the root, which an absolute root does not have.
#[verifier::external_body]
fn new_rule_builder(root: &str) -> (builder: GitignoreBuilder)
    requires
        root@.len() > 0 && root@[0] == '/',
    ensures
        held_lines(builder) == Seq::<Seq<char>>::empty(),
        builder_root(builder) == root@,
{
    GitignoreBuilder::new(root)
}

/// `GitignoreBuilder::add_line` of the `ignore` crate: takes one line of a
/// rule file, or reports that the line is no pattern it can parse and leaves
/// the builder as it was. A comment or a blank line is taken and leaves the
/// builder as it was too; of any other line that is taken, the builder
/// stores the text without the blanks at its end as its newest rule. Whether
/// a line is taken depends on the line alone, since the builder's settings
/// are never changed here.
#[verifier::external_body]
fn add_rule_line(builder: &mut GitignoreBuilder, line: &str) -> (added: Result<(), ignore::Error>)
    ensures
        (added is Ok) == valid_rule_line(line@),
        builder_root(*final(builder)) == builder_root(*old(builder)),
        added is Ok && stored_rule(line@) is Some ==> held_lines(*final(builder)) == held_lines(
            *old(builder),
        ).push(stored_rule(line@)->Some_0),
        added is Ok && stored_rule(line@) is None ==> held_lines(*final(builder)) == held_lines(
            *old(builder),
        ),
        added is Err ==> held_lines(*final(builder)) == held_lines(*old(builder)),
{
    builder.add_line(None, line).map(|_| ())
}

/// `GitignoreBuilder::build` of the `ignore` crate: the matcher for the lines
/// taken so far, or the reason why none could be made; which of the two
/// depends on those lines alone.
#[verifier::external_body]
fn build_rules(builder: &GitignoreBuilder) -> (built: Result<Gitignore, ignore::Error>)
    ensures
        (built is Ok) == buildable(held_lines(*builder)),
        built matches Ok(matcher) ==> matcher_lines(matcher) == held_lines(*builder)
            && matcher_root(matcher) == builder_root(*builder),
{
    builder.build()
}

/// `Gitignore::matched_path_or_any_parents` of the `ignore` crate, followed by
/// `Match::is_ignore`: whether the rules ignore the path or a directory above
/// it. The crate first drops a leading `./` and the matcher's root from the
/// path, and panics where a slash then leads it. With an absolute root, a
/// path that begins with neither a slash nor a dot is left as it is and does
/// not panic. The contract only names the answer.
#[verifier::external_body]
fn rules_ignore(rules: &Gitignore, path: &str, is_dir: bool) -> (ignored: bool)
    requires
        matcher_root(*rules).len() > 0 && matcher_root(*rules)[0] == '/',
        path@.len() == 0 || (path@[0] != '/' && path@[0] != '.'),
    ensures
        ignored == rules_match(matcher_lines(*rules), matcher_root(*rules), path@, is_dir),
{
    rules.matched_path_or_any_parents(path, is_dir).is_ignore()
}

/// `ignore::Error`'s `Display`: the error as a line of text.
#[verifier::external_body]
fn describe(err: &ignore::Error) -> (text: String) {
    err.to_string()
}

/// The rules that a builder holds after it was offered a line: one more
/// where the line was taken and the builder stores something of it.
pub open spec fn held_after(held: Seq<Seq<char>>, line: Seq<char>, taken: bool) -> Seq<Seq<char>> {
    if taken && stored_rule(line) is Some {
        held.push(stored_rule(line)->Some_0)
    } else {
        held
    }
}

/// The rules that a builder holds once it has taken every one of the lines.
pub open spec fn stored_rules(lines: Seq<Seq<char>>) -> Seq<Seq<char>>
    decreases lines.len(),
{
    if lines.len() == 0 {
        Seq::empty()
    } else {
        held_after(stored_rules(lines.drop_last()), lines.last(), true)
    }
}

/// The lines of a rule file as they are handed to the rule builder: the
/// first without its byte-order marks, the others as they are.
pub open spec fn prepared(lines: Seq<Seq<char>>) -> Seq<Seq<char>> {
    Seq::new(
        lines.len(),
        |i: int|
            if i == 0 {
                without_bom(lines[i])
            } else {
                lines[i]
            },
    )
}

/// Every line is one that the rule builder takes.
pub open spec fn all_valid(lines: Seq<Seq<char>>) -> bool {
    forall|i: int| 0 <= i < lines.len() ==> valid_rule_line(#[trigger] lines[i])
}

/// The directory's path as text: a slash, then its names joined by slashes.
pub open spec fn root_text(root: Seq<Seq<char>>) -> Seq<char> {
    seq!['/'] + joined(root)
}

/// What the rule lines say of a path given by its names below the root:
/// `None` where a line is no valid pattern or no matcher can be built.
pub open spec fn rules_verdict(
    root: Seq<Seq<char>>,
    rel: Seq<Seq<char>>,
    is_dir: bool,
    lines: Seq<Seq<char>>,
) -> Option<bool> {
    if all_valid(prepared(lines)) && buildable(stored_rules(prepared(lines))) {
        Some(rules_match(stored_rules(prepared(lines)), root_text(root), joined(rel), is_dir))
    } else {
        None
    }
}

/// Whether `target` is kept from viewers of `root`: `None` where the check
/// fails.
///
/// A path outside the root is not ignored. Below the root, a path with a
/// hidden name is ignored. For any other path the rule file decides: where
/// there is none the path is not ignored, where it could not be read the
/// check fails, and otherwise the path is ignored where the rule lines say
/// so.
pub open spec fn ignore_verdict(
    root: Seq<Seq<char>>,
    target: Seq<Seq<char>>,
    is_dir: bool,
    rules: RuleFileView,
) -> Option<bool> {
    if !root.is_prefix_of(target) {
        Some(false)
    } else if has_hidden_name(target.skip(root.len() as int)) {
        Some(true)
    } else {
        match rules {
            RuleFileView::Missing => Some(false),
            RuleFileView::Unreadable(_) => None,
            RuleFileView::Lines(lines) => rules_verdict(
                root,
                target.skip(root.len() as int),
                is_dir,
                lines,
            ),
        }
    }
}

/// Where the check fails because the rule file could not be read, the error
/// carries the reason that came with the file.
pub open spec fn carries_reason(outcome: Result<bool, IgnoreError>, rules: RuleFileView) -> bool {
    match (outcome, rules) {
        (Err(err), RuleFileView::Unreadable(reason)) => err.message@ == reason,
        _ => true,
    }
}

/// The outcome of a check says what the verdict is: the same answer, or an
/// error where the check fails.
pub open spec fn agrees(outcome: Result<bool, IgnoreError>, verdict: Option<bool>) -> bool {
    match verdict {
        Some(ignored) => outcome == Ok::<bool, IgnoreError>(ignored),
        None => outcome is Err,
    }
}

/// Drops the byte-order marks at the start of a line.
pub fn strip_bom(line: &str) -> (rest: &str)
    ensures
        rest@ == without_bom(line@),
{
    let len: usize = line.unicode_len();
    let mut i: usize = 0;
    proof {
        assert(line@.skip(0) =~= line@);
    }
    while i < len && line.get_char(i) == '\u{feff}'
        invariant
            i <= len,
            len == line@.len(),
            without_bom(line@) == without_bom(line@.skip(i as int)),
        decreases len - i,
    {
        proof {
            let rest = line@.skip(i as int);
            assert(rest[0] == bom());
            assert(rest.skip(1) =~= line@.skip(i + 1));
        }
        i += 1;
    }
    proof {
        assert(line@.skip(i as int) =~= line@.subrange(i as int, len as int));
    }
    line.substring_char(i, len)
}

/// Asks the rule lines about a path given by its names below the root.
fn check_rules(root: &Vec<String>, rel: &Vec<String>, is_dir: bool, lines: &Vec<String>) -> (r:
    Result<bool, IgnoreError>)
    requires
        well_formed(texts(rel@)),
        !has_hidden_name(texts(rel@)),
    ensures
        agrees(r, rules_verdict(texts(root@), texts(rel@), is_dir, texts(lines@))),
{
    let mut root_path = String::from_str("/");
    root_path.append(join(root).as_str());
    proof {
        reveal_strlit("/");
        assert("/"@ =~= seq!['/']);
    }
    let mut builder = new_rule_builder(root_path.as_str());
    let ghost given = prepared(texts(lines@));
    let mut i: usize = 0;
    while i < lines.len()
        invariant
            i <= lines.len(),
            given == prepared(texts(lines@)),
            builder_root(builder) == root_text(texts(root@)),
            held_lines(builder) == stored_rules(given.take(i as int)),
            all_valid(given.take(i as int)),
        decreases lines.len() - i,
    {
        let line: &str = if i == 0 {
            strip_bom(lines[i].as_str())
        } else {
            lines[i].as_str()
        };
        assert(line@ == given[i as int]);
        match add_rule_line(&mut builder, line) {
            Err(err) => {
                assert(!valid_rule_line(given[i as int]));
                return Err(IgnoreError { message: describe(&err) });
            },
            Ok(_) => {},
        }
        proof {
            assert(given.take(i + 1).drop_last() =~= given.take(i as int));
            assert(given.take(i + 1).last() == line@);
        }
        i += 1;
    }
    proof {
        assert(given.take(lines@.len() as int) =~= given);
    }
    match build_rules(&builder) {
        Err(err) => Err(IgnoreError { message: describe(&err) }),
        Ok(rules) => {
            let rel_text = join(rel);
            proof {
                lemma_joined_is_relative(texts(rel@));
                if rel@.len() > 0 {
                    assert(!is_hidden_name(texts(rel@)[0]));
                }
            }
            Ok(rules_ignore(&rules, rel_text.as_str(), is_dir))
        },
    }
}

/// Decides whether `target` is kept from viewers of `root`.
///
/// A path outside the root is never ignored. Below the root, a path with a
/// hidden name is ignored whatever the rule file holds. Otherwise the rule
/// file decides: with no rule file nothing is ignored; a rule file that
/// could not be read, or that holds a line that is no valid pattern, makes
/// the check fail. `target_is_dir` tells the rules whether the path names a
/// directory.
pub fn is_ignored(
    root: &Vec<String>,
    target: &Vec<String>,
    target_is_dir: bool,
    rules: &RuleFile,
) -> (r: Result<bool, IgnoreError>)
    requires
        texts(root@).is_prefix_of(texts(target@)) ==> well_formed(
            texts(target@).skip(root@.len() as int),
        ),
    ensures
        agrees(r, ignore_verdict(texts(root@), texts(target@), target_is_dir, rules@)),
        carries_reason(r, rules@),
{
    if !starts_with(target, root) {
        return Ok(false);
    }
    let rel = strip_prefix(target, root);
    assert(texts(root@).len() == root@.len());
    if any_hidden(&rel) {
        return Ok(true);
    }
    match rules {
        RuleFile::Missing => Ok(false),
        RuleFile::Unreadable(reason) => Err(IgnoreError { message: reason.clone() }),
        RuleFile::Lines(lines) => check_rules(root, &rel, target_is_dir, lines),
    }
}

/// A path with a hidden name below the root is ignored, whatever the rule
/// file holds and whether or not it can be read as rules.
pub proof fn lemma_hidden_is_ignored(
    root: Seq<Seq<char>>,
    target: Seq<Seq<char>>,
    is_dir: bool,
    rules: RuleFileView,
)
    requires
        hidden_below(root, target),
    ensures
        ignore_verdict(root, target, is_dir, rules) == Some(true),
{
}

/// The root itself is never hidden, whatever its own names are, and without
/// a rule file it is not ignored.
pub proof fn lemma_root_is_exempt(root: Seq<Seq<char>>, is_dir: bool)
    ensures
        !hidden_below(root, root),
        ignore_verdict(root, root, is_dir, RuleFileView::Missing) == Some(false),
{
    assert(root.skip(root.len() as int) =~= Seq::<Seq<char>>::empty());
}

/// Without a rule file a path is ignored exactly when it lies below the root
/// with a hidden name on the way.
pub proof fn lemma_without_rules_only_hidden_is_ignored(
    root: Seq<Seq<char>>,
    target: Seq<Seq<char>>,
    is_dir: bool,
)
    ensures
        ignore_verdict(root, target, is_dir, RuleFileView::Missing) == Some(
            hidden_below(root, target),
        ),
{
}

/// A rule file that could not be read fails the check of every path that
/// lies below the root and has no hidden name.
pub proof fn lemma_unreadable_rules_fail_the_check(
    root: Seq<Seq<char>>,
    target: Seq<Seq<char>>,
    is_dir: bool,
    reason: Seq<char>,
)
    requires
        root.is_prefix_of(target),
        !hidden_below(root, target),
    ensures
        ignore_verdict(root, target, is_dir, RuleFileView::Unreadable(reason)) is None,
{
}

} // verus!
