//! Snapshot history parsing: each record arrives as one pipe-delimited
//! line, `short-hash|timestamp|subject`, most recent first. The subject
//! may itself contain the delimiter and is kept whole from the third
//! field on. Timestamps are reformatted into a local date-and-time
//! string; a timestamp that does not parse is preserved unchanged.

use vstd::prelude::*;
use vstd::string::*;

use crate::text::{find_char, first_occ, lemma_first_occ, lines_spec, split_lines, str_trim,
    trim_spec};

verus! {

/// Whether the version-control timestamp layout (`YYYY-MM-DD HH:MM:SS
/// +ZZZZ`) parses for `s`: the name for what `chrono`'s parser decides,
/// a function of the string alone.
pub uninterp spec fn git_timestamp_parses(s: Seq<char>) -> bool;

/// Relies on `chrono::DateTime::parse_from_str` with the fixed layout
/// `"%Y-%m-%d %H:%M:%S %z"`: whether it returns `Ok` depends on the input
/// string alone. The rendered text comes from `with_timezone(&Local)` and
/// `format`, and depends on the machine's time zone, so nothing is stated
/// about it.
#[verifier::external_body]
fn render_local_timestamp(raw: &str) -> (r: Option<String>)
    ensures
        r is Some <==> git_timestamp_parses(raw@),
{
    match chrono::DateTime::parse_from_str(raw, "%Y-%m-%d %H:%M:%S %z") {
        Ok(dt) => Some(dt.with_timezone(&chrono::Local).format("%Y-%m-%d %H:%M").to_string()),
        Err(_) => None,
    }
}

/// The timestamp rendered as a local date-and-time string; when it does
/// not parse, the raw string is returned unchanged.
pub fn format_git_date(raw: &str) -> (r: String)
    ensures
        !git_timestamp_parses(raw@) ==> r@ == raw@,
{
    match render_local_timestamp(raw) {
        Some(s) => s,
        None => String::from_str(raw),
    }
}

/// The three fields of one history line: the text before the first
/// delimiter, the text between the first and second, and everything after
/// the second (so a subject containing the delimiter stays whole), each
/// trimmed. A line with fewer than two delimiters has no fields.
pub open spec fn history_fields(s: Seq<char>) -> Option<(Seq<char>, Seq<char>, Seq<char>)> {
    let i = first_occ(s, '|');
    if i >= s.len() {
        None
    } else {
        let rest = s.skip(i + 1);
        let j = first_occ(rest, '|');
        if j >= rest.len() {
            None
        } else {
            Some((trim_spec(s.take(i)), trim_spec(rest.take(j)), trim_spec(rest.skip(j + 1))))
        }
    }
}

/// One recorded snapshot, as presented to a reader.
#[derive(Clone, Debug)]
pub struct SnapshotRecord {
    pub short_hash: String,
    pub raw_timestamp: String,
    pub rendered_date: String,
    pub subject: String,
}

/// The record fields `rec` must carry for the parsed fields `f`; the
/// rendered date is pinned only where the timestamp does not parse.
pub open spec fn record_matches(rec: SnapshotRecord, f: (Seq<char>, Seq<char>, Seq<char>)) -> bool {
    &&& rec.short_hash@ == f.0
    &&& rec.raw_timestamp@ == f.1
    &&& rec.subject@ == f.2
    &&& (!git_timestamp_parses(f.1) ==> rec.rendered_date@ == f.1)
}

/// Parses one pipe-delimited history line into a record, rendering its
/// timestamp; yields nothing when the line has fewer than three fields.
pub fn parse_history_line(line: &str) -> (r: Option<SnapshotRecord>)
    ensures
        r is Some <==> history_fields(line@) is Some,
        r matches Some(rec) ==> history_fields(line@) matches Some(f) && record_matches(rec, f),
{
    let n = line.unicode_len();
    let i = find_char(line, '|');
    proof {
        lemma_first_occ(line@, '|');
    }
    if i >= n {
        return None;
    }
    let rest = line.substring_char(i + 1, n);
    proof {
        assert(rest@ =~= line@.skip(i + 1));
    }
    let rn = rest.unicode_len();
    let j = find_char(rest, '|');
    proof {
        lemma_first_occ(rest@, '|');
    }
    if j >= rn {
        return None;
    }
    let hash_part = line.substring_char(0, i);
    let ts_part = rest.substring_char(0, j);
    let subj_part = rest.substring_char(j + 1, rn);
    proof {
        assert(hash_part@ =~= line@.take(i as int));
        assert(ts_part@ =~= rest@.take(j as int));
        assert(subj_part@ =~= rest@.skip(j + 1));
    }
    let raw_ts = String::from_str(str_trim(ts_part));
    let rendered = format_git_date(raw_ts.as_str());
    Some(
        SnapshotRecord {
            short_hash: String::from_str(str_trim(hash_part)),
            raw_timestamp: raw_ts,
            rendered_date: rendered,
            subject: String::from_str(str_trim(subj_part)),
        },
    )
}

/// The parsed fields of every line of `ls` that holds a full record, in
/// order; lines with fewer than three fields (blank ones among them) are
/// skipped.
pub open spec fn history_records(ls: Seq<Seq<char>>) -> Seq<(Seq<char>, Seq<char>, Seq<char>)>
    decreases ls.len(),
{
    if ls.len() == 0 {
        seq![]
    } else {
        (match history_fields(ls[0]) {
            Some(f) => seq![f],
            None => seq![],
        }) + history_records(ls.skip(1))
    }
}

proof fn lemma_history_records_snoc(ls: Seq<Seq<char>>, l: Seq<char>)
    ensures
        history_records(ls.push(l)) == history_records(ls) + (match history_fields(l) {
            Some(f) => seq![f],
            None => seq![],
        }),
    decreases ls.len(),
{
    let step = (match history_fields(l) {
        Some(f) => seq![f],
        None => seq![],
    });
    if ls.len() == 0 {
        assert(ls.push(l)[0] == l);
        assert(ls.push(l).skip(1) =~~= Seq::<Seq<char>>::empty());
        assert(history_records(ls) =~~= Seq::<(Seq<char>, Seq<char>, Seq<char>)>::empty());
        assert(history_records(ls.push(l).skip(1)) =~~= Seq::<
            (Seq<char>, Seq<char>, Seq<char>),
        >::empty());
        assert(history_records(ls.push(l)) == step + history_records(ls.push(l).skip(1)));
        assert(history_records(ls.push(l)) =~~= history_records(ls) + step);
    } else {
        let h = ls[0];
        assert(ls.push(l)[0] == h);
        assert(ls.push(l).skip(1) =~~= ls.skip(1).push(l));
        lemma_history_records_snoc(ls.skip(1), l);
        let hstep = (match history_fields(h) {
            Some(f) => seq![f],
            None => seq![],
        });
        assert(history_records(ls.push(l)) == hstep + (history_records(ls.skip(1)) + step));
        assert(hstep + (history_records(ls.skip(1)) + step) =~~= (hstep + history_records(
            ls.skip(1),
        )) + step);
    }
}

/// Parses the whole history listing: one record per well-formed line, in
/// the listing's order.
pub fn parse_history(text: &str) -> (r: Vec<SnapshotRecord>)
    ensures
        r@.len() == history_records(lines_spec(text@)).len(),
        forall|k: int|
            0 <= k < r@.len() ==> record_matches(
                #[trigger] r@[k],
                history_records(lines_spec(text@))[k],
            ),
{
    let ls = split_lines(text);
    let ghost lsv = lines_spec(text@);
    let n = ls.len();
    proof {
        assert(n == lsv.len());
    }
    let mut r: Vec<SnapshotRecord> = Vec::new();
    let mut i: usize = 0;
    proof {
        assert(lsv.take(0) =~~= Seq::<Seq<char>>::empty());
    }
    while i < n
        invariant
            0 <= i <= n,
            n == lsv.len(),
            ls.deep_view() == lsv,
            r@.len() == history_records(lsv.take(i as int)).len(),
            forall|k: int|
                0 <= k < r@.len() ==> record_matches(
                    #[trigger] r@[k],
                    history_records(lsv.take(i as int))[k],
                ),
        decreases n - i,
    {
        let line = ls[i].as_str();
        let ghost prefix = lsv.take(i as int);
        proof {
            assert(line@ == lsv[i as int]);
            assert(lsv.take(i + 1) =~~= prefix.push(lsv[i as int]));
            lemma_history_records_snoc(prefix, lsv[i as int]);
        }
        match parse_history_line(line) {
            Some(rec) => {
                r.push(rec);
            },
            None => {},
        }
        proof {
            assert(r@.len() == history_records(lsv.take(i + 1)).len());
            assert forall|k: int| 0 <= k < r@.len() implies record_matches(
                #[trigger] r@[k],
                history_records(lsv.take(i + 1))[k],
            ) by {
                if k < history_records(prefix).len() {
                    assert(history_records(lsv.take(i + 1))[k] == history_records(prefix)[k]);
                }
            }
        }
        i += 1;
    }
    proof {
        assert(lsv.take(n as int) =~~= lsv);
    }
    r
}

} // verus!
