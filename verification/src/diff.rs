//! Friendly diff rendering: a raw textual diff for one file is turned into
//! a sequence of classified, numbered lines plus a natural-language summary.
//!
//! Structural header lines are dropped; a line opening with `+` (but not
//! `+++`) is an addition, one opening with `-` (but not `---`) a removal,
//! any other nonempty line unchanged context. Removed lines carry no display
//! number; added and unchanged lines are numbered sequentially from 1.

use vstd::prelude::*;
use vstd::string::*;

use crate::text::{
    dec_spec, is_blank_spec, lemma_lines_nonempty_bound, lines_spec, nonempty_count, split_lines,
    starts_with_spec, str_is_blank, str_starts_with, usize_to_string,
};

verus! {

/// Classification of one rendered diff line.
#[derive(Clone, Copy, PartialEq, Eq, Structural, Debug)]
pub enum LineKind {
    Added,
    Removed,
    Unchanged,
}

/// One rendered line of a friendly diff.
#[derive(Clone, Debug)]
pub struct DiffLine {
    pub content: String,
    pub kind: LineKind,
    /// Display position among non-removed lines, starting at 1; removed
    /// lines carry none.
    pub number: Option<usize>,
}

/// Mathematical model of a rendered line.
pub struct DiffLineModel {
    pub content: Seq<char>,
    pub kind: LineKind,
    pub number: Option<int>,
}

impl View for DiffLine {
    type V = DiffLineModel;

    open spec fn view(&self) -> DiffLineModel {
        DiffLineModel {
            content: self.content@,
            kind: self.kind,
            number: match self.number {
                Some(n) => Some(n as int),
                None => None,
            },
        }
    }
}

impl DeepView for DiffLine {
    type V = DiffLineModel;

    open spec fn deep_view(&self) -> DiffLineModel {
        self.view()
    }
}

/// The rendered diff for one file: classified lines and a summary.
#[derive(Clone, Debug)]
pub struct FriendlyDiff {
    pub summary: Option<String>,
    pub lines: Vec<DiffLine>,
}

/// Structural lines of the raw diff that carry no content for the reader.
pub open spec fn is_header_line(l: Seq<char>) -> bool {
    ||| starts_with_spec(l, "diff --git"@)
    ||| starts_with_spec(l, "index "@)
    ||| starts_with_spec(l, "--- a/"@)
    ||| starts_with_spec(l, "+++ b/"@)
    ||| starts_with_spec(l, "@@"@)
}

pub open spec fn is_added_line(l: Seq<char>) -> bool {
    &&& !is_header_line(l)
    &&& starts_with_spec(l, "+"@)
    &&& !starts_with_spec(l, "+++"@)
}

pub open spec fn is_removed_line(l: Seq<char>) -> bool {
    &&& !is_header_line(l)
    &&& !(starts_with_spec(l, "+"@) && !starts_with_spec(l, "+++"@))
    &&& starts_with_spec(l, "-"@)
    &&& !starts_with_spec(l, "---"@)
}

pub open spec fn is_context_line(l: Seq<char>) -> bool {
    &&& !is_header_line(l)
    &&& !(starts_with_spec(l, "+"@) && !starts_with_spec(l, "+++"@))
    &&& !(starts_with_spec(l, "-"@) && !starts_with_spec(l, "---"@))
    &&& l.len() > 0
}

/// What one raw line contributes to the rendering when the next display
/// number is `next`.
pub open spec fn render_step(l: Seq<char>, next: int) -> Seq<DiffLineModel> {
    if is_added_line(l) {
        seq![DiffLineModel { content: l.skip(1), kind: LineKind::Added, number: Some(next) }]
    } else if is_removed_line(l) {
        seq![DiffLineModel { content: l.skip(1), kind: LineKind::Removed, number: None }]
    } else if is_context_line(l) {
        seq![DiffLineModel { content: l, kind: LineKind::Unchanged, number: Some(next) }]
    } else {
        seq![]
    }
}

/// How far one raw line advances the display number.
pub open spec fn numbered_delta(l: Seq<char>) -> nat {
    if is_added_line(l) || is_context_line(l) {
        1nat
    } else {
        0nat
    }
}

/// The rendering of the raw lines `ls`, numbering non-removed lines from
/// `next`.
pub open spec fn render_spec(ls: Seq<Seq<char>>, next: int) -> Seq<DiffLineModel>
    decreases ls.len(),
{
    if ls.len() == 0 {
        seq![]
    } else {
        render_step(ls[0], next) + render_spec(ls.skip(1), next + numbered_delta(ls[0]))
    }
}

pub open spec fn added_count(ls: Seq<Seq<char>>) -> nat
    decreases ls.len(),
{
    if ls.len() == 0 {
        0
    } else {
        (if is_added_line(ls[0]) {
            1nat
        } else {
            0nat
        }) + added_count(ls.skip(1))
    }
}

pub open spec fn removed_count(ls: Seq<Seq<char>>) -> nat
    decreases ls.len(),
{
    if ls.len() == 0 {
        0
    } else {
        (if is_removed_line(ls[0]) {
            1nat
        } else {
            0nat
        }) + removed_count(ls.skip(1))
    }
}

pub open spec fn numbered_count(ls: Seq<Seq<char>>) -> nat
    decreases ls.len(),
{
    if ls.len() == 0 {
        0
    } else {
        numbered_delta(ls[0]) + numbered_count(ls.skip(1))
    }
}

proof fn lemma_render_snoc(ls: Seq<Seq<char>>, l: Seq<char>, next: int)
    ensures
        render_spec(ls.push(l), next) == render_spec(ls, next) + render_step(
            l,
            next + numbered_count(ls),
        ),
        added_count(ls.push(l)) == added_count(ls) + (if is_added_line(l) {
            1nat
        } else {
            0nat
        }),
        removed_count(ls.push(l)) == removed_count(ls) + (if is_removed_line(l) {
            1nat
        } else {
            0nat
        }),
        numbered_count(ls.push(l)) == numbered_count(ls) + numbered_delta(l),
    decreases ls.len(),
{
    if ls.len() == 0 {
        assert(ls.push(l) =~~= seq![l]);
        assert(seq![l][0] == l);
        assert(seq![l].skip(1) =~~= Seq::<Seq<char>>::empty());
        assert(render_spec(ls, next) + render_step(l, next + numbered_count(ls)) =~~= render_step(
            l,
            next,
        ));
        assert(render_spec(seq![l], next) =~~= render_step(l, next) + render_spec(
            Seq::<Seq<char>>::empty(),
            next + numbered_delta(l),
        ));
        assert(render_spec(seq![l], next) =~~= render_step(l, next));
        assert(added_count(seq![l]) == (if is_added_line(l) {
            1nat
        } else {
            0nat
        }) + added_count(Seq::<Seq<char>>::empty()));
        assert(removed_count(seq![l]) == (if is_removed_line(l) {
            1nat
        } else {
            0nat
        }) + removed_count(Seq::<Seq<char>>::empty()));
        assert(numbered_count(seq![l]) == numbered_delta(l) + numbered_count(
            Seq::<Seq<char>>::empty(),
        ));
    } else {
        let h = ls[0];
        assert(ls.push(l)[0] == h);
        assert(ls.push(l).skip(1) =~~= ls.skip(1).push(l));
        lemma_render_snoc(ls.skip(1), l, next + numbered_delta(h));
        assert(render_spec(ls.push(l), next) =~~= render_step(h, next) + (render_spec(
            ls.skip(1),
            next + numbered_delta(h),
        ) + render_step(l, next + numbered_delta(h) + numbered_count(ls.skip(1)))));
        assert(render_step(h, next) + (render_spec(ls.skip(1), next + numbered_delta(h))
            + render_step(l, next + numbered_count(ls))) =~~= (render_step(h, next) + render_spec(
            ls.skip(1),
            next + numbered_delta(h),
        )) + render_step(l, next + numbered_count(ls)));
        assert(added_count(ls.push(l)) == (if is_added_line(h) {
            1nat
        } else {
            0nat
        }) + added_count(ls.skip(1).push(l)));
        assert(added_count(ls) == (if is_added_line(h) {
            1nat
        } else {
            0nat
        }) + added_count(ls.skip(1)));
        assert(removed_count(ls.push(l)) == (if is_removed_line(h) {
            1nat
        } else {
            0nat
        }) + removed_count(ls.skip(1).push(l)));
        assert(removed_count(ls) == (if is_removed_line(h) {
            1nat
        } else {
            0nat
        }) + removed_count(ls.skip(1)));
        assert(numbered_count(ls.push(l)) == numbered_delta(h) + numbered_count(
            ls.skip(1).push(l),
        ));
        assert(numbered_count(ls) == numbered_delta(h) + numbered_count(ls.skip(1)));
    }
}

proof fn lemma_numbered_split(ls: Seq<Seq<char>>, k: int)
    requires
        0 <= k <= ls.len(),
    ensures
        numbered_count(ls) == numbered_count(ls.take(k)) + numbered_count(ls.skip(k)),
    decreases k,
{
    if k == 0 {
        assert(ls.take(0) =~~= Seq::<Seq<char>>::empty());
        assert(ls.skip(0) =~~= ls);
    } else {
        assert(ls.take(k)[0] == ls[0]);
        assert(ls.take(k).skip(1) =~~= ls.skip(1).take(k - 1));
        assert(ls.skip(k) =~~= ls.skip(1).skip(k - 1));
        lemma_numbered_split(ls.skip(1), k - 1);
    }
}

proof fn lemma_numbered_le_nonempty(ls: Seq<Seq<char>>)
    ensures
        numbered_count(ls) <= nonempty_count(ls),
    decreases ls.len(),
{
    reveal_strlit("+");
    if ls.len() > 0 {
        lemma_numbered_le_nonempty(ls.skip(1));
    }
}

/// The exact summary text for `a` added and `r` removed lines.
pub open spec fn summary_spec(a: int, r: int) -> Seq<char> {
    if a > r && a > 5 {
        "large addition"@
    } else if r > a && r > 5 {
        "large deletion"@
    } else if a > 0 && r > 0 {
        "mixed change, "@ + dec_spec(a) + " added / "@ + dec_spec(r) + " removed"@
    } else if a > 0 {
        dec_spec(a) + " lines added"@
    } else if r > 0 {
        dec_spec(r) + " lines removed"@
    } else {
        "no content change"@
    }
}

/// The summary sentence for the two change counts.
pub fn summary_of(a: usize, r: usize) -> (s: String)
    ensures
        s@ == summary_spec(a as int, r as int),
{
    if a > r && a > 5 {
        String::from_str("large addition")
    } else if r > a && r > 5 {
        String::from_str("large deletion")
    } else if a > 0 && r > 0 {
        let mut s = String::from_str("mixed change, ");
        let an = usize_to_string(a);
        s.append(an.as_str());
        s.append(" added / ");
        let rn = usize_to_string(r);
        s.append(rn.as_str());
        s.append(" removed");
        proof {
            assert(s@ =~= summary_spec(a as int, r as int));
        }
        s
    } else if a > 0 {
        let mut s = usize_to_string(a);
        s.append(" lines added");
        proof {
            assert(s@ =~= summary_spec(a as int, r as int));
        }
        s
    } else if r > 0 {
        let mut s = usize_to_string(r);
        s.append(" lines removed");
        proof {
            assert(s@ =~= summary_spec(a as int, r as int));
        }
        s
    } else {
        String::from_str("no content change")
    }
}

/// Renders a raw textual diff into classified, numbered lines with a
/// summary derived from the addition and removal counts.
pub fn parse_friendly_diff(raw: &str) -> (r: FriendlyDiff)
    ensures
        r.lines.deep_view() == render_spec(lines_spec(raw@), 1),
        r.summary matches Some(s) && s@ == summary_spec(
            added_count(lines_spec(raw@)) as int,
            removed_count(lines_spec(raw@)) as int,
        ),
{
    let chars_total = raw.unicode_len();
    let ls = split_lines(raw);
    let ghost lsv = lines_spec(raw@);
    proof {
        lemma_lines_nonempty_bound(raw@);
        lemma_numbered_le_nonempty(lsv);
    }
    let n = ls.len();
    proof {
        assert(n == lsv.len());
    }
    let mut out: Vec<DiffLine> = Vec::new();
    let mut added: usize = 0;
    let mut removed: usize = 0;
    let mut num: usize = 1;
    let mut i: usize = 0;
    proof {
        assert(lsv.take(0) =~~= Seq::<Seq<char>>::empty());
        assert(out.deep_view() =~~= render_spec(lsv.take(0), 1));
    }
    while i < n
        invariant
            0 <= i <= n,
            n == lsv.len(),
            ls.deep_view() == lsv,
            chars_total == raw@.len(),
            lsv == lines_spec(raw@),
            2 * nonempty_count(lsv) <= chars_total + 1,
            numbered_count(lsv) <= nonempty_count(lsv),
            out.deep_view() == render_spec(lsv.take(i as int), 1),
            added == added_count(lsv.take(i as int)),
            removed == removed_count(lsv.take(i as int)),
            num == 1 + numbered_count(lsv.take(i as int)),
            added <= i,
            removed <= i,
        decreases n - i,
    {
        let line = ls[i].as_str();
        let ghost prefix = lsv.take(i as int);
        proof {
            assert(line@ == lsv[i as int]);
            assert(lsv.take(i + 1) =~~= prefix.push(lsv[i as int]));
            lemma_render_snoc(prefix, lsv[i as int], 1);
            lemma_numbered_split(lsv, i + 1);
            lemma_numbered_split(lsv.take(i + 1), i + 1);
            assert(lsv.take(i + 1).take(i + 1) =~~= lsv.take(i + 1));
        }
        let is_hdr = str_starts_with(line, "diff --git") || str_starts_with(line, "index ")
            || str_starts_with(line, "--- a/") || str_starts_with(line, "+++ b/")
            || str_starts_with(line, "@@");
        let ghost old_dv = out.deep_view();
        if !is_hdr && str_starts_with(line, "+") && !str_starts_with(line, "+++") {
            proof {
                reveal_strlit("+");
            }
            let content = line.substring_char(1, line.unicode_len());
            proof {
                assert(content@ =~= line@.skip(1));
            }
            out.push(DiffLine { content: String::from_str(content), kind: LineKind::Added, number: Some(num) });
            proof {
                assert(out.deep_view() =~~= old_dv.push(
                    DiffLineModel {
                        content: lsv[i as int].skip(1),
                        kind: LineKind::Added,
                        number: Some(num as int),
                    },
                ));
                assert(out.deep_view() =~~= render_spec(lsv.take(i + 1), 1));
            }
            added += 1;
            num += 1;
        } else if !is_hdr && str_starts_with(line, "-") && !str_starts_with(line, "---") {
            proof {
                reveal_strlit("-");
            }
            let content = line.substring_char(1, line.unicode_len());
            proof {
                assert(content@ =~= line@.skip(1));
            }
            out.push(DiffLine { content: String::from_str(content), kind: LineKind::Removed, number: None });
            proof {
                assert(out.deep_view() =~~= old_dv.push(
                    DiffLineModel {
                        content: lsv[i as int].skip(1),
                        kind: LineKind::Removed,
                        number: None,
                    },
                ));
                assert(out.deep_view() =~~= render_spec(lsv.take(i + 1), 1));
            }
            removed += 1;
        } else if !is_hdr && !line.is_empty() {
            out.push(DiffLine { content: String::from_str(line), kind: LineKind::Unchanged, number: Some(num) });
            proof {
                assert(out.deep_view() =~~= old_dv.push(
                    DiffLineModel {
                        content: lsv[i as int],
                        kind: LineKind::Unchanged,
                        number: Some(num as int),
                    },
                ));
                assert(out.deep_view() =~~= render_spec(lsv.take(i + 1), 1));
            }
            num += 1;
        } else {
            proof {
                assert(render_step(lsv[i as int], 1 + numbered_count(prefix) as int) =~~= Seq::<
                    DiffLineModel,
                >::empty());
                assert(out.deep_view() =~~= render_spec(lsv.take(i + 1), 1));
            }
        }
        i += 1;
    }
    proof {
        assert(lsv.take(n as int) =~~= lsv);
    }
    let s = summary_of(added, removed);
    FriendlyDiff { summary: Some(s), lines: out }
}

/// Every line classified the same way and numbered from `next`: the shape
/// of a first-snapshot view (all added) or an unmodified view (all
/// unchanged).
pub open spec fn uniform_render_spec(ls: Seq<Seq<char>>, k: LineKind, next: int) -> Seq<
    DiffLineModel,
>
    decreases ls.len(),
{
    if ls.len() == 0 {
        seq![]
    } else {
        seq![DiffLineModel { content: ls[0], kind: k, number: Some(next) }] + uniform_render_spec(
            ls.skip(1),
            k,
            next + 1,
        )
    }
}

proof fn lemma_uniform_render_snoc(ls: Seq<Seq<char>>, l: Seq<char>, k: LineKind, next: int)
    ensures
        uniform_render_spec(ls.push(l), k, next) == uniform_render_spec(ls, k, next) + seq![
            DiffLineModel { content: l, kind: k, number: Some(next + ls.len()) },
        ],
    decreases ls.len(),
{
    if ls.len() == 0 {
        assert(ls.push(l) =~~= seq![l]);
        assert(ls.push(l)[0] == l);
        assert(ls.push(l).skip(1) =~~= Seq::<Seq<char>>::empty());
        assert(uniform_render_spec(ls, k, next) =~~= Seq::<DiffLineModel>::empty());
        assert(uniform_render_spec(ls.push(l).skip(1), k, next + 1) =~~= Seq::<
            DiffLineModel,
        >::empty());
        assert(uniform_render_spec(ls.push(l), k, next) == seq![
            DiffLineModel { content: ls.push(l)[0], kind: k, number: Some(next) },
        ] + uniform_render_spec(ls.push(l).skip(1), k, next + 1));
        assert(uniform_render_spec(ls.push(l), k, next) =~~= uniform_render_spec(ls, k, next)
            + seq![DiffLineModel { content: l, kind: k, number: Some(next + ls.len()) }]);
    } else {
        let h = ls[0];
        assert(ls.push(l)[0] == h);
        assert(ls.push(l).skip(1) =~~= ls.skip(1).push(l));
        lemma_uniform_render_snoc(ls.skip(1), l, k, next + 1);
        let hm = seq![DiffLineModel { content: h, kind: k, number: Some(next) }];
        let lm = seq![DiffLineModel { content: l, kind: k, number: Some(next + ls.len()) }];
        assert(uniform_render_spec(ls.push(l), k, next) == hm + (uniform_render_spec(
            ls.skip(1),
            k,
            next + 1,
        ) + lm));
        assert(hm + (uniform_render_spec(ls.skip(1), k, next + 1) + lm) =~~= (hm
            + uniform_render_spec(ls.skip(1), k, next + 1)) + lm);
    }
}

fn uniform_lines(ls: &Vec<String>, k: LineKind) -> (r: Vec<DiffLine>)
    ensures
        r.deep_view() == uniform_render_spec(ls.deep_view(), k, 1),
{
    let ghost lsv = ls.deep_view();
    let n = ls.len();
    proof {
        assert(n == lsv.len());
    }
    let mut r: Vec<DiffLine> = Vec::new();
    let mut i: usize = 0;
    proof {
        assert(lsv.take(0) =~~= Seq::<Seq<char>>::empty());
        assert(r.deep_view() =~~= uniform_render_spec(lsv.take(0), k, 1));
    }
    while i < n
        invariant
            0 <= i <= n,
            n == lsv.len(),
            ls.deep_view() == lsv,
            r.deep_view() == uniform_render_spec(lsv.take(i as int), k, 1),
        decreases n - i,
    {
        let ghost old_dv = r.deep_view();
        let line = ls[i].as_str();
        r.push(DiffLine { content: String::from_str(line), kind: k, number: Some(i + 1) });
        proof {
            assert(lsv.take(i + 1) =~~= lsv.take(i as int).push(lsv[i as int]));
            lemma_uniform_render_snoc(lsv.take(i as int), lsv[i as int], k, 1);
            assert(r.deep_view() =~~= old_dv.push(
                DiffLineModel { content: lsv[i as int], kind: k, number: Some(i + 1) },
            ));
            assert(r.deep_view() =~~= uniform_render_spec(lsv.take(i + 1), k, 1));
        }
        i += 1;
    }
    proof {
        assert(lsv.take(n as int) =~~= lsv);
    }
    r
}

/// The summary for a file's first snapshot, naming its line count.
pub open spec fn initial_summary_spec(n: int) -> Seq<char> {
    "initial version, "@ + dec_spec(n) + " lines"@
}

/// The view for a file's first snapshot: no parent revision exists, so the
/// whole content counts as added, numbered from 1.
pub fn render_initial_version(content: &str) -> (r: FriendlyDiff)
    ensures
        r.lines.deep_view() == uniform_render_spec(
            lines_spec(content@),
            LineKind::Added,
            1,
        ),
        r.summary matches Some(s) && s@ == initial_summary_spec(lines_spec(content@).len() as int),
{
    let ls = split_lines(content);
    let lines = uniform_lines(&ls, LineKind::Added);
    let mut s = String::from_str("initial version, ");
    let count = usize_to_string(ls.len());
    s.append(count.as_str());
    s.append(" lines");
    proof {
        assert(s@ =~= initial_summary_spec(lines_spec(content@).len() as int));
    }
    FriendlyDiff { summary: Some(s), lines }
}

/// The view for a snapshot that left the file untouched: the content is
/// shown as unchanged context, numbered from 1.
pub fn render_unmodified(content: &str) -> (r: FriendlyDiff)
    ensures
        r.lines.deep_view() == uniform_render_spec(
            lines_spec(content@),
            LineKind::Unchanged,
            1,
        ),
        r.summary matches Some(s) && s@ == "no modification"@,
{
    let ls = split_lines(content);
    let lines = uniform_lines(&ls, LineKind::Unchanged);
    FriendlyDiff { summary: Some(String::from_str("no modification")), lines }
}

/// Which rendering a snapshot's diff calls for.
#[derive(Clone, Copy, PartialEq, Eq, Structural, Debug)]
pub enum DiffView {
    /// The snapshot has no parent revision: show the file as its initial
    /// version.
    InitialVersion,
    /// The diff against the parent is blank: the snapshot left the file
    /// unmodified.
    Unmodified,
    /// The diff has content to render.
    Changed,
}

/// Decides which rendering path a snapshot's diff takes.
pub fn choose_diff_view(has_parent: bool, diff_text: &str) -> (v: DiffView)
    ensures
        !has_parent ==> v == DiffView::InitialVersion,
        has_parent && is_blank_spec(diff_text@) ==> v == DiffView::Unmodified,
        has_parent && !is_blank_spec(diff_text@) ==> v == DiffView::Changed,
{
    if !has_parent {
        DiffView::InitialVersion
    } else if str_is_blank(diff_text) {
        DiffView::Unmodified
    } else {
        DiffView::Changed
    }
}

/// Renders the friendly view of one file in one snapshot: the initial
/// version when no parent revision exists, the unmodified view when the
/// diff against the parent is blank, and the parsed diff otherwise.
/// `file_content` is the file's text at the snapshot, consulted by the
/// first two paths.
pub fn render_snapshot_view(has_parent: bool, diff_text: &str, file_content: &str) -> (r:
    FriendlyDiff)
    ensures
        !has_parent ==> r.lines.deep_view() == uniform_render_spec(
            lines_spec(file_content@),
            LineKind::Added,
            1,
        ) && (r.summary matches Some(s) && s@ == initial_summary_spec(
            lines_spec(file_content@).len() as int,
        )),
        has_parent && is_blank_spec(diff_text@) ==> r.lines.deep_view() == uniform_render_spec(
            lines_spec(file_content@),
            LineKind::Unchanged,
            1,
        ) && (r.summary matches Some(s) && s@ == "no modification"@),
        has_parent && !is_blank_spec(diff_text@) ==> r.lines.deep_view() == render_spec(
            lines_spec(diff_text@),
            1,
        ) && (r.summary matches Some(s) && s@ == summary_spec(
            added_count(lines_spec(diff_text@)) as int,
            removed_count(lines_spec(diff_text@)) as int,
        )),
{
    match choose_diff_view(has_parent, diff_text) {
        DiffView::InitialVersion => render_initial_version(file_content),
        DiffView::Unmodified => render_unmodified(file_content),
        DiffView::Changed => parse_friendly_diff(diff_text),
    }
}

/// The payloads of the lines of `ls` that render as added, in order.
pub open spec fn added_contents(ls: Seq<Seq<char>>) -> Seq<Seq<char>>
    decreases ls.len(),
{
    if ls.len() == 0 {
        seq![]
    } else {
        (if is_added_line(ls[0]) {
            seq![ls[0].skip(1)]
        } else {
            seq![]
        }) + added_contents(ls.skip(1))
    }
}

/// The payloads of the lines of `ls` that render as removed, in order.
pub open spec fn removed_contents(ls: Seq<Seq<char>>) -> Seq<Seq<char>>
    decreases ls.len(),
{
    if ls.len() == 0 {
        seq![]
    } else {
        (if is_removed_line(ls[0]) {
            seq![ls[0].skip(1)]
        } else {
            seq![]
        }) + removed_contents(ls.skip(1))
    }
}

/// The contents of the rendered lines of kind `k`, in order.
pub open spec fn rendered_contents(ms: Seq<DiffLineModel>, k: LineKind) -> Seq<Seq<char>>
    decreases ms.len(),
{
    if ms.len() == 0 {
        seq![]
    } else {
        (if ms[0].kind == k {
            seq![ms[0].content]
        } else {
            seq![]
        }) + rendered_contents(ms.skip(1), k)
    }
}

proof fn lemma_rendered_contents_cons(m: DiffLineModel, ms: Seq<DiffLineModel>, k: LineKind)
    ensures
        rendered_contents(seq![m] + ms, k) == (if m.kind == k {
            seq![m.content]
        } else {
            seq![]
        }) + rendered_contents(ms, k),
{
    assert((seq![m] + ms)[0] == m);
    assert((seq![m] + ms).skip(1) =~~= ms);
}

/// Law: rendering keeps exactly the `+` payloads as the added lines and
/// exactly the `-` payloads as the removed lines, each in input order,
/// whatever unchanged context surrounds them.
pub proof fn lemma_render_preserves_changes(ls: Seq<Seq<char>>, next: int)
    ensures
        rendered_contents(render_spec(ls, next), LineKind::Added) == added_contents(ls),
        rendered_contents(render_spec(ls, next), LineKind::Removed) == removed_contents(ls),
    decreases ls.len(),
{
    if ls.len() == 0 {
    } else {
        let h = ls[0];
        let rest = render_spec(ls.skip(1), next + numbered_delta(h));
        lemma_render_preserves_changes(ls.skip(1), next + numbered_delta(h));
        if is_added_line(h) || is_removed_line(h) || is_context_line(h) {
            let m = render_step(h, next)[0];
            assert(render_step(h, next) =~~= seq![m]);
            lemma_rendered_contents_cons(m, rest, LineKind::Added);
            lemma_rendered_contents_cons(m, rest, LineKind::Removed);
            assert(rendered_contents(render_spec(ls, next), LineKind::Added) =~~= added_contents(
                ls,
            ));
            assert(rendered_contents(render_spec(ls, next), LineKind::Removed)
                =~~= removed_contents(ls));
        } else {
            assert(render_step(h, next) + rest =~~= rest);
            assert(rendered_contents(render_spec(ls, next), LineKind::Added) =~~= added_contents(
                ls,
            ));
            assert(rendered_contents(render_spec(ls, next), LineKind::Removed)
                =~~= removed_contents(ls));
        }
    }
}

/// Round-trip law: when the raw diff's `+` payloads are exactly one line
/// `x` and its `-` payloads exactly one line `y`, the rendering holds
/// exactly one added entry, with content `x`, and exactly one removed
/// entry, with content `y`, independent of the surrounding context lines.
pub proof fn lemma_round_trip_single_change(ls: Seq<Seq<char>>, x: Seq<char>, y: Seq<char>)
    requires
        added_contents(ls) == seq![x],
        removed_contents(ls) == seq![y],
    ensures
        rendered_contents(render_spec(ls, 1), LineKind::Added) == seq![x],
        rendered_contents(render_spec(ls, 1), LineKind::Removed) == seq![y],
{
    lemma_render_preserves_changes(ls, 1);
}

} // verus!
