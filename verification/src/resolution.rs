//! What the optional features of a profile come to for one client and one
//! selection: the extra arguments and the files, by location.
//!
//! The features are taken in the order in which the profile declares them.
//! Arguments keep that order; where two features rename the same path under
//! one location, the feature declared later decides.

use vstd::prelude::*;
use crate::optional::{lemma_merge_bundles_associative, merge_bundles, BundleView, FileBundle, Optional};
use crate::text::{append_texts, texts};
use crate::validation::ClientInfo;

verus! {

/// The arguments of the relevant features of `optionals`, in order.
pub open spec fn resolved_args(
    optionals: Seq<Optional>,
    client_info: ClientInfo,
    selected: Seq<Seq<char>>,
) -> Seq<Seq<char>>
    decreases optionals.len(),
{
    if optionals.len() == 0 {
        Seq::empty()
    } else {
        let before = resolved_args(optionals.drop_last(), client_info, selected);
        if optionals.last().is_relevant(&client_info, selected) {
            before + optionals.last().args_view()
        } else {
            before
        }
    }
}

/// The files of the relevant features of `optionals`, merged in order.
pub open spec fn resolved_files(
    optionals: Seq<Optional>,
    client_info: ClientInfo,
    selected: Seq<Seq<char>>,
) -> BundleView
    decreases optionals.len(),
{
    if optionals.len() == 0 {
        Map::empty()
    } else {
        let before = resolved_files(optionals.drop_last(), client_info, selected);
        if optionals.last().is_relevant(&client_info, selected) {
            merge_bundles(before, optionals.last().files_view())
        } else {
            before
        }
    }
}

/// Every feature of the list keeps the rule that a visible one has a name.
pub open spec fn all_well_formed(optionals: Seq<Optional>) -> bool {
    forall|i: int| 0 <= i < optionals.len() ==> (#[trigger] optionals[i]).well_formed()
}

/// What a launch takes from the optional features.
#[derive(Clone, Debug)]
pub struct Resolution {
    pub args: Vec<String>,
    pub files: FileBundle,
}

/// Whether every feature of the list keeps the rule that a visible one has a
/// name. A profile that fails this is to be turned away when it is loaded.
pub fn validate(optionals: &Vec<Optional>) -> (r: bool)
    ensures
        r == all_well_formed(optionals@),
{
    let mut i: usize = 0;
    while i < optionals.len()
        invariant
            i <= optionals@.len(),
            forall|j: int| 0 <= j < i ==> (#[trigger] optionals@[j]).well_formed(),
        decreases optionals@.len() - i,
    {
        if !optionals[i].is_well_formed() {
            return false;
        }
        i += 1;
    }
    true
}

/// Resolves the features of a profile for a client and a selection.
pub fn resolve(optionals: &Vec<Optional>, client_info: &ClientInfo, selected: &Vec<String>) -> (r:
    Resolution)
    requires
        all_well_formed(optionals@),
    ensures
        texts(r.args@) == resolved_args(optionals@, *client_info, texts(selected@)),
        r.files@ == resolved_files(optionals@, *client_info, texts(selected@)),
{
    let mut args: Vec<String> = Vec::new();
    let mut files = FileBundle::new();
    let mut i: usize = 0;
    assert(optionals@.take(0) =~= Seq::<Optional>::empty());
    assert(texts(args@) =~= Seq::<Seq<char>>::empty());
    while i < optionals.len()
        invariant
            i <= optionals@.len(),
            all_well_formed(optionals@),
            texts(args@) == resolved_args(
                optionals@.take(i as int),
                *client_info,
                texts(selected@),
            ),
            files@ == resolved_files(optionals@.take(i as int), *client_info, texts(selected@)),
        decreases optionals@.len() - i,
    {
        assert(optionals@.take(i + 1).drop_last() =~= optionals@.take(i as int));
        assert(optionals@.take(i + 1).last() == optionals@[i as int]);
        let optional = &optionals[i];
        if optional.relevant(client_info, selected) {
            let more = optional.get_args();
            append_texts(&mut args, &more);
            let bundle = optional.get_files();
            files.merge(&bundle);
        }
        i += 1;
    }
    assert(optionals@.take(i as int) =~= optionals@);
    Resolution { args, files }
}

/// Resolving one list of features and then another, and merging the two
/// results, gives what resolving the two lists as one gives: for the files of
/// every location, the renamings included, and for the arguments. For a path
/// that features of both lists rename, the second list decides either way.
pub proof fn lemma_resolution_of_concatenation(
    first: Seq<Optional>,
    second: Seq<Optional>,
    client_info: ClientInfo,
    selected: Seq<Seq<char>>,
)
    ensures
        resolved_files(first + second, client_info, selected) == merge_bundles(
            resolved_files(first, client_info, selected),
            resolved_files(second, client_info, selected),
        ),
        resolved_args(first + second, client_info, selected) == resolved_args(
            first,
            client_info,
            selected,
        ) + resolved_args(second, client_info, selected),
    decreases second.len(),
{
    let whole = first + second;
    let files_first = resolved_files(first, client_info, selected);
    let args_first = resolved_args(first, client_info, selected);
    if second.len() == 0 {
        assert(whole =~= first);
        lemma_merge_bundles_associative(files_first, Map::empty(), Map::empty());
        assert(args_first + Seq::<Seq<char>>::empty() =~= args_first);
    } else {
        let front = second.drop_last();
        assert(whole.drop_last() =~= first + front);
        assert(whole.last() == second.last());
        lemma_resolution_of_concatenation(first, front, client_info, selected);
        let files_front = resolved_files(front, client_info, selected);
        let args_front = resolved_args(front, client_info, selected);
        if second.last().is_relevant(&client_info, selected) {
            lemma_merge_bundles_associative(files_first, files_front, second.last().files_view());
            assert((args_first + args_front) + second.last().args_view() =~= args_first + (
            args_front + second.last().args_view()));
        }
    }
}

} // verus!
