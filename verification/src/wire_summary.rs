//! Profile summaries in a frame: one summary as an object, and a catalog as
//! the list of its summaries.

use vstd::prelude::*;
use vstd::string::StringExecFns;
use crate::message::{summaries_view, ProfileSummary, ProfileSummaryView};
use crate::wire::{at, expect, lemma_at_split, lemma_unquote_exact, push_quoted, quoted, read_quoted, unquote};
use crate::wire_items::{lemma_unlist_exact, list_text, push_items, read_items, said_all, unlist, Framed};
use crate::wire_list::{lemma_text_list_exact, push_list, read_list, text_list, untext_list};

verus! {

/// What stands before the name in a summary.
pub open spec fn summary_head() -> Seq<char> {
    "{\"name\":"@
}

/// What stands between the name and the optional features.
pub open spec fn summary_optionals() -> Seq<char> {
    ",\"optionals\":"@
}

/// What stands between the optional features and the version.
pub open spec fn summary_version() -> Seq<char> {
    ",\"version\":"@
}

/// What ends a summary.
pub open spec fn summary_end() -> Seq<char> {
    "}"@
}

/// A summary as it stands in a frame.
pub open spec fn summary_text(summary: ProfileSummaryView) -> Seq<char> {
    summary_head() + quoted(summary.name) + summary_optionals() + text_list(summary.optionals)
        + summary_version() + quoted(summary.version) + summary_end()
}

/// The summary that stands in `input` at `pos`, and the position behind it.
pub open spec fn unsummary(input: Seq<char>, pos: int) -> Option<(ProfileSummaryView, int)> {
    if !at(input, pos, summary_head()) {
        None
    } else {
        match unquote(input, pos + summary_head().len()) {
            Some((name, after_name)) => if !at(input, after_name, summary_optionals()) {
                None
            } else {
                match untext_list(input, after_name + summary_optionals().len()) {
                    Some((optionals, after_list)) => if !at(input, after_list, summary_version()) {
                        None
                    } else {
                        match unquote(input, after_list + summary_version().len()) {
                            Some((version, after_version)) => if at(input, after_version, summary_end()) {
                                Some(
                                    (
                                        ProfileSummaryView { name, version, optionals },
                                        after_version + summary_end().len(),
                                    ),
                                )
                            } else {
                                None
                            },
                            None => None,
                        }
                    },
                    None => None,
                }
            },
            None => None,
        }
    }
}

proof fn lemma_unsummary_sound(input: Seq<char>, pos: int)
    requires
        unsummary(input, pos) is Some,
    ensures
        ({
            let (summary, end) = unsummary(input, pos).unwrap();
            at(input, pos, summary_text(summary)) && end == pos + summary_text(summary).len()
        }),
{
    let (summary, end) = unsummary(input, pos).unwrap();
    let name_at = pos + summary_head().len();
    let (name, after_name) = unquote(input, name_at).unwrap();
    lemma_unquote_exact(input, name_at, name, after_name);
    let list_at = after_name + summary_optionals().len();
    let (optionals, after_list) = untext_list(input, list_at).unwrap();
    lemma_text_list_exact(input, list_at, optionals, after_list);
    let version_at = after_list + summary_version().len();
    let (version, after_version) = unquote(input, version_at).unwrap();
    lemma_unquote_exact(input, version_at, version, after_version);
    let a1 = summary_head() + quoted(name);
    let a2 = a1 + summary_optionals();
    let a3 = a2 + text_list(optionals);
    let a4 = a3 + summary_version();
    let a5 = a4 + quoted(version);
    assert(at(input, pos, a1)) by {
        lemma_at_split(input, pos, summary_head(), quoted(name));
    }
    assert(at(input, pos, a2)) by {
        lemma_at_split(input, pos, a1, summary_optionals());
    }
    assert(at(input, pos, a3)) by {
        lemma_at_split(input, pos, a2, text_list(optionals));
    }
    assert(at(input, pos, a4)) by {
        lemma_at_split(input, pos, a3, summary_version());
    }
    assert(at(input, pos, a5)) by {
        lemma_at_split(input, pos, a4, quoted(version));
    }
    assert(at(input, pos, a5 + summary_end())) by {
        lemma_at_split(input, pos, a5, summary_end());
    }
}

proof fn lemma_unsummary_complete(input: Seq<char>, pos: int, summary: ProfileSummaryView)
    requires
        at(input, pos, summary_text(summary)),
    ensures
        unsummary(input, pos) == Some((summary, pos + summary_text(summary).len())),
{
    let a1 = summary_head() + quoted(summary.name);
    let a2 = a1 + summary_optionals();
    let a3 = a2 + text_list(summary.optionals);
    let a4 = a3 + summary_version();
    let a5 = a4 + quoted(summary.version);
    let name_at = pos + summary_head().len();
    let after_name = name_at + quoted(summary.name).len();
    let list_at = after_name + summary_optionals().len();
    let after_list = list_at + text_list(summary.optionals).len();
    let version_at = after_list + summary_version().len();
    let after_version = version_at + quoted(summary.version).len();
    assert(at(input, pos, a5) && at(input, after_version, summary_end())) by {
        lemma_at_split(input, pos, a5, summary_end());
    }
    assert(at(input, pos, a4) && at(input, version_at, quoted(summary.version))) by {
        lemma_at_split(input, pos, a4, quoted(summary.version));
    }
    assert(at(input, pos, a3) && at(input, after_list, summary_version())) by {
        lemma_at_split(input, pos, a3, summary_version());
    }
    assert(at(input, pos, a2) && at(input, list_at, text_list(summary.optionals))) by {
        lemma_at_split(input, pos, a2, text_list(summary.optionals));
    }
    assert(at(input, pos, a1) && at(input, after_name, summary_optionals())) by {
        lemma_at_split(input, pos, a1, summary_optionals());
    }
    assert(at(input, pos, summary_head()) && at(input, name_at, quoted(summary.name))) by {
        lemma_at_split(input, pos, summary_head(), quoted(summary.name));
    }
    lemma_unquote_exact(input, name_at, summary.name, after_name);
    lemma_text_list_exact(input, list_at, summary.optionals, after_list);
    lemma_unquote_exact(input, version_at, summary.version, after_version);
}

/// `unsummary` finds a summary exactly where the summary stands.
pub proof fn lemma_unsummary_exact(
    input: Seq<char>,
    pos: int,
    summary: ProfileSummaryView,
    end: int,
)
    ensures
        unsummary(input, pos) == Some((summary, end)) <==> at(input, pos, summary_text(summary))
            && end == pos + summary_text(summary).len(),
{
    if unsummary(input, pos) == Some((summary, end)) {
        lemma_unsummary_sound(input, pos);
    }
    if at(input, pos, summary_text(summary)) {
        lemma_unsummary_complete(input, pos, summary);
    }
}

/// Writes `summary` at the end of `out` as it stands in a frame.
pub fn push_summary(out: &mut String, summary: &ProfileSummary)
    ensures
        final(out)@ == old(out)@ + summary_text(summary@),
{
    out.append("{\"name\":");
    push_quoted(out, summary.name.as_str());
    out.append(",\"optionals\":");
    push_list(out, &summary.optionals);
    out.append(",\"version\":");
    push_quoted(out, summary.version.as_str());
    out.append("}");
    assert(out@ =~= old(out)@ + summary_text(summary@));
}

/// The summary that stands in `input` at `pos`, and the position behind it.
pub fn read_summary(input: &Vec<char>, pos: usize) -> (r: Option<(ProfileSummary, usize)>)
    ensures
        match r {
            Some((summary, end)) => unsummary(input@, pos as int) == Some((summary@, end as int)),
            None => unsummary(input@, pos as int) is None,
        },
{
    let name_at = match expect(input, pos, "{\"name\":") {
        Some(name_at) => name_at,
        None => {
            return None;
        },
    };
    let (name, after_name) = match read_quoted(input, name_at) {
        Some(found) => found,
        None => {
            return None;
        },
    };
    let list_at = match expect(input, after_name, ",\"optionals\":") {
        Some(list_at) => list_at,
        None => {
            return None;
        },
    };
    let (optionals, after_list) = match read_list(input, list_at) {
        Some(found) => found,
        None => {
            return None;
        },
    };
    let version_at = match expect(input, after_list, ",\"version\":") {
        Some(version_at) => version_at,
        None => {
            return None;
        },
    };
    let (version, after_version) = match read_quoted(input, version_at) {
        Some(found) => found,
        None => {
            return None;
        },
    };
    match expect(input, after_version, "}") {
        Some(end) => Some((ProfileSummary { name, version, optionals }, end)),
        None => None,
    }
}

impl Framed for ProfileSummary {
    type Said = ProfileSummaryView;

    open spec fn said(&self) -> ProfileSummaryView {
        self@
    }

    open spec fn framed(said: ProfileSummaryView) -> Seq<char> {
        summary_text(said)
    }

    open spec fn unframed(input: Seq<char>, pos: int) -> Option<(ProfileSummaryView, int)> {
        unsummary(input, pos)
    }

    proof fn lemma_exact(input: Seq<char>, pos: int, said: ProfileSummaryView, end: int) {
        lemma_unsummary_exact(input, pos, said, end);
    }

    proof fn lemma_opens(said: ProfileSummaryView) {
        reveal_strlit("{\"name\":");
    }

    fn push_framed(&self, out: &mut String) {
        push_summary(out, self);
    }

    fn read_framed(input: &Vec<char>, pos: usize) -> (r: Option<(ProfileSummary, usize)>) {
        read_summary(input, pos)
    }
}

/// A catalog as it stands in a frame.
pub open spec fn catalog_text(list: Seq<ProfileSummaryView>) -> Seq<char> {
    list_text::<ProfileSummary>(list)
}

/// The catalog that stands in `input` at `pos`, and the position behind it.
pub open spec fn uncatalog(input: Seq<char>, pos: int) -> Option<(Seq<ProfileSummaryView>, int)> {
    unlist::<ProfileSummary>(input, pos)
}

/// Reading finds a catalog exactly where the catalog stands.
pub proof fn lemma_uncatalog_exact(
    input: Seq<char>,
    pos: int,
    list: Seq<ProfileSummaryView>,
    end: int,
)
    ensures
        uncatalog(input, pos) == Some((list, end)) <==> at(input, pos, catalog_text(list)) && end
            == pos + catalog_text(list).len(),
{
    lemma_unlist_exact::<ProfileSummary>(input, pos, list, end);
}

/// Writes a catalog at the end of `out` as it stands in a frame.
pub fn push_catalog(out: &mut String, list: &Vec<ProfileSummary>)
    ensures
        final(out)@ == old(out)@ + catalog_text(summaries_view(list@)),
{
    push_items(out, list);
    assert(said_all(list@) =~= summaries_view(list@));
}

/// The catalog that stands in `input` at `pos`, and the position behind it.
pub fn read_catalog(input: &Vec<char>, pos: usize) -> (r: Option<(Vec<ProfileSummary>, usize)>)
    ensures
        match r {
            Some((list, end)) => uncatalog(input@, pos as int) == Some(
                (summaries_view(list@), end as int),
            ),
            None => uncatalog(input@, pos as int) is None,
        },
{
    let found = read_items::<ProfileSummary>(input, pos);
    match found {
        Some((list, end)) => {
            assert(said_all(list@) =~= summaries_view(list@));
            Some((list, end))
        },
        None => None,
    }
}

} // verus!
