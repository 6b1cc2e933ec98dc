//! Optional features of a profile: the rules that decide whether one
//! applies to a client, and the files and arguments that it brings.

use vstd::prelude::*;
use crate::rename_map::RenameMap;
use crate::text::{append_texts, contains_text, copy_texts, texts};
use crate::validation::{ClientInfo, OsType};

verus! {

/// The directory category that a file action targets.
#[derive(Clone, Copy, Debug, PartialEq, Eq, Structural, Hash)]
pub enum Location {
    Profile,
    Libraries,
    Assets,
}

/// What a set of file relocations says: the paths that are taken as they
/// are, in order, and the paths that get another name.
#[verifier::ext_equal]
pub struct FilesView {
    pub original_paths: Seq<Seq<char>>,
    pub rename_paths: Map<Seq<char>, Seq<char>>,
}

/// File relocations.
#[derive(Debug)]
pub struct OptionalFiles {
    pub original_paths: Vec<String>,
    pub rename_paths: RenameMap,
}

impl View for OptionalFiles {
    type V = FilesView;

    open spec fn view(&self) -> FilesView {
        FilesView {
            original_paths: texts(self.original_paths@),
            rename_paths: self.rename_paths@,
        }
    }
}

/// No relocation at all.
pub open spec fn no_files() -> FilesView {
    FilesView { original_paths: Seq::empty(), rename_paths: Map::empty() }
}

/// The relocations of `first` followed by those of `second`: the plain
/// paths of both in that order, and the renamings of both, where for a path
/// that both rename the name from `second` stays.
pub open spec fn merge_files(first: FilesView, second: FilesView) -> FilesView {
    FilesView {
        original_paths: first.original_paths + second.original_paths,
        rename_paths: first.rename_paths.union_prefer_right(second.rename_paths),
    }
}

impl OptionalFiles {
    /// The relocations with these plain paths and these renamings.
    pub fn new(original_paths: Vec<String>, rename_paths: RenameMap) -> (r: OptionalFiles)
        ensures
            r.original_paths == original_paths,
            r.rename_paths == rename_paths,
    {
        OptionalFiles { original_paths, rename_paths }
    }

    /// Adds the relocations of `other` behind those of `self`.
    pub fn merge(&mut self, other: &OptionalFiles)
        ensures
            final(self)@ == merge_files(old(self)@, other@),
    {
        append_texts(&mut self.original_paths, &other.original_paths);
        self.rename_paths.extend(&other.rename_paths);
    }
}

impl Clone for OptionalFiles {
    fn clone(&self) -> (r: OptionalFiles)
        ensures
            r@ == self@,
    {
        OptionalFiles {
            original_paths: copy_texts(&self.original_paths),
            rename_paths: self.rename_paths.clone(),
        }
    }
}

impl Default for OptionalFiles {
    fn default() -> (r: OptionalFiles)
        ensures
            r@ == no_files(),
    {
        let r = OptionalFiles { original_paths: Vec::new(), rename_paths: RenameMap::new() };
        assert(r@.original_paths =~= Seq::empty());
        r
    }
}

/// Relocations of files under one location.
#[derive(Clone, Debug)]
pub struct FileAction {
    pub location: Location,
    pub files: OptionalFiles,
}

/// What an optional feature does once it is taken.
#[derive(Clone, Debug)]
pub enum Action {
    Files(FileAction),
    Args(Vec<String>),
}

/// How a rule compares the client's value with its own.
#[derive(Clone, Copy, Debug, PartialEq, Eq, Structural, Hash)]
pub enum CompareMode {
    Equal,
    Unequal,
}

impl Default for CompareMode {
    fn default() -> (r: CompareMode)
        ensures
            r == CompareMode::Equal,
    {
        CompareMode::Equal
    }
}

/// A test on the client's operating system.
#[derive(Clone, Copy, Debug, PartialEq, Eq, Structural, Hash)]
pub struct OsRule {
    pub os_type: OsType,
    pub compare_mode: CompareMode,
}

/// A condition on the client.
#[derive(Clone, Copy, Debug, PartialEq, Eq, Structural, Hash)]
pub enum Rule {
    OsType(OsRule),
}

/// Something that holds of a client or does not.
pub trait Apply {
    /// Whether it holds of the client.
    spec fn applies(&self, client_info: &ClientInfo) -> bool;

    fn apply(&self, client_info: &ClientInfo) -> (r: bool)
        ensures
            r == self.applies(client_info),
    ;
}

impl OsRule {
    /// The test that compares the client's operating system with `os_type`.
    pub fn new(os_type: OsType, compare_mode: CompareMode) -> (r: OsRule)
        ensures
            r.os_type == os_type,
            r.compare_mode == compare_mode,
    {
        OsRule { os_type, compare_mode }
    }
}

impl Apply for OsRule {
    open spec fn applies(&self, client_info: &ClientInfo) -> bool {
        match self.compare_mode {
            CompareMode::Equal => self.os_type == client_info.os_type,
            CompareMode::Unequal => self.os_type != client_info.os_type,
        }
    }

    fn apply(&self, client_info: &ClientInfo) -> (r: bool) {
        match self.compare_mode {
            CompareMode::Equal => self.os_type == client_info.os_type,
            CompareMode::Unequal => self.os_type != client_info.os_type,
        }
    }
}

impl Apply for Rule {
    open spec fn applies(&self, client_info: &ClientInfo) -> bool {
        match self {
            Rule::OsType(rule) => rule.applies(client_info),
        }
    }

    fn apply(&self, client_info: &ClientInfo) -> (r: bool) {
        match self {
            Rule::OsType(rule) => rule.apply(client_info),
        }
    }
}

/// The files of every location that has any.
pub type BundleView = Map<Location, FilesView>;

/// The arguments that one action injects.
pub open spec fn action_args(action: Action) -> Seq<Seq<char>> {
    match action {
        Action::Args(args) => texts(args@),
        Action::Files(_) => Seq::empty(),
    }
}

/// The arguments that a list of actions injects, in the order of the list.
pub open spec fn actions_args(actions: Seq<Action>) -> Seq<Seq<char>>
    decreases actions.len(),
{
    if actions.len() == 0 {
        Seq::empty()
    } else {
        actions_args(actions.drop_last()) + action_args(actions.last())
    }
}

/// The files that one action relocates, under its location.
pub open spec fn action_files(action: Action) -> BundleView {
    match action {
        Action::Files(file_action) => map![file_action.location => file_action.files@],
        Action::Args(_) => Map::empty(),
    }
}

/// Two bundles as one: a location of either is a location of the result, and
/// where both have it, the files of `second` come behind those of `first`.
pub open spec fn merge_bundles(first: BundleView, second: BundleView) -> BundleView {
    Map::new(
        |location: Location| first.contains_key(location) || second.contains_key(location),
        |location: Location|
            if first.contains_key(location) && second.contains_key(location) {
                merge_files(first[location], second[location])
            } else if first.contains_key(location) {
                first[location]
            } else {
                second[location]
            },
    )
}

/// The files that a list of actions relocates, taken in the order of the
/// list.
pub open spec fn actions_files(actions: Seq<Action>) -> BundleView
    decreases actions.len(),
{
    if actions.len() == 0 {
        Map::empty()
    } else {
        merge_bundles(actions_files(actions.drop_last()), action_files(actions.last()))
    }
}

/// Merging files is associative.
pub proof fn lemma_merge_files_associative(a: FilesView, b: FilesView, c: FilesView)
    ensures
        merge_files(merge_files(a, b), c) == merge_files(a, merge_files(b, c)),
{
    let left = merge_files(merge_files(a, b), c);
    let right = merge_files(a, merge_files(b, c));
    assert(left.original_paths =~= right.original_paths);
    assert(left.rename_paths =~= right.rename_paths);
}

/// Merging bundles is associative, and the empty bundle changes nothing.
pub proof fn lemma_merge_bundles_associative(a: BundleView, b: BundleView, c: BundleView)
    ensures
        merge_bundles(merge_bundles(a, b), c) == merge_bundles(a, merge_bundles(b, c)),
        merge_bundles(a, Map::empty()) == a,
        merge_bundles(Map::empty(), a) == a,
{
    let left = merge_bundles(merge_bundles(a, b), c);
    let right = merge_bundles(a, merge_bundles(b, c));
    assert forall|location: Location| left.contains_key(location) implies #[trigger] left[location]
        == right[location] by {
        if a.contains_key(location) && b.contains_key(location) && c.contains_key(location) {
            lemma_merge_files_associative(a[location], b[location], c[location]);
        }
    }
    assert(left =~= right);
    assert(merge_bundles(a, Map::empty()) =~= a);
    assert(merge_bundles(Map::empty(), a) =~= a);
}

/// The files of every location that has any, as values.
#[derive(Clone, Debug)]
pub struct FileBundle {
    pub profile: Option<OptionalFiles>,
    pub libraries: Option<OptionalFiles>,
    pub assets: Option<OptionalFiles>,
}

impl FileBundle {
    /// The files held for `location`, if any.
    pub open spec fn slot(&self, location: Location) -> Option<OptionalFiles> {
        match location {
            Location::Profile => self.profile,
            Location::Libraries => self.libraries,
            Location::Assets => self.assets,
        }
    }
}

impl View for FileBundle {
    type V = BundleView;

    open spec fn view(&self) -> BundleView {
        Map::new(
            |location: Location| self.slot(location) is Some,
            |location: Location| self.slot(location).unwrap()@,
        )
    }
}

/// The files of `more` behind those of `current`, where there are any.
fn merged_slot(current: Option<OptionalFiles>, more: &OptionalFiles) -> (r: OptionalFiles)
    ensures
        r@ == match current {
            Some(files) => merge_files(files@, more@),
            None => more@,
        },
{
    match current {
        Some(files) => {
            let mut files = files;
            files.merge(more);
            files
        },
        None => more.clone(),
    }
}

impl FileBundle {
    /// The bundle without any location.
    pub fn new() -> (r: FileBundle)
        ensures
            r@ == Map::<Location, FilesView>::empty(),
    {
        let r = FileBundle { profile: None, libraries: None, assets: None };
        assert(r@ =~= Map::<Location, FilesView>::empty());
        r
    }

    /// The files of `location`, if the bundle has that location.
    pub fn get(&self, location: Location) -> (r: Option<&OptionalFiles>)
        ensures
            match r {
                Some(files) => self@.contains_key(location) && self@[location] == files@,
                None => !self@.contains_key(location),
            },
    {
        match location {
            Location::Profile => self.profile.as_ref(),
            Location::Libraries => self.libraries.as_ref(),
            Location::Assets => self.assets.as_ref(),
        }
    }

    /// Puts `files` under `location`, behind what the bundle has there.
    pub fn add(&mut self, location: Location, files: &OptionalFiles)
        ensures
            final(self)@ == merge_bundles(old(self)@, map![location => files@]),
    {
        match location {
            Location::Profile => {
                let current = self.profile.take();
                self.profile = Some(merged_slot(current, files));
            },
            Location::Libraries => {
                let current = self.libraries.take();
                self.libraries = Some(merged_slot(current, files));
            },
            Location::Assets => {
                let current = self.assets.take();
                self.assets = Some(merged_slot(current, files));
            },
        }
        assert(self@ =~= merge_bundles(old(self)@, map![location => files@]));
    }

    /// Puts every location of `other` into the bundle, behind what it has.
    pub fn merge(&mut self, other: &FileBundle)
        ensures
            final(self)@ == merge_bundles(old(self)@, other@),
    {
        if let Some(files) = &other.profile {
            self.add(Location::Profile, files);
        }
        if let Some(files) = &other.libraries {
            self.add(Location::Libraries, files);
        }
        if let Some(files) = &other.assets {
            self.add(Location::Assets, files);
        }
        assert(self@ =~= merge_bundles(old(self)@, other@));
    }
}

/// One optional feature of a profile.
#[derive(Clone, Debug)]
pub struct Optional {
    pub actions: Vec<Action>,
    pub rules: Vec<Rule>,
    pub enabled: bool,
    pub visible: bool,
    pub description: Option<String>,
    pub name: Option<String>,
}

/// Whether an optional feature is shown when nothing says so.
pub fn default_visible() -> (r: bool)
    ensures
        !r,
{
    false
}

/// Whether an optional feature is switched on when nothing says so.
pub fn default_enabled() -> (r: bool)
    ensures
        r,
{
    true
}

impl Apply for Optional {
    /// One of the rules holds of the client.
    open spec fn applies(&self, client_info: &ClientInfo) -> bool {
        exists|i: int| 0 <= i < self.rules@.len() && (#[trigger] self.rules@[i]).applies(client_info)
    }

    fn apply(&self, client_info: &ClientInfo) -> (r: bool) {
        let mut i: usize = 0;
        while i < self.rules.len()
            invariant
                i <= self.rules@.len(),
                forall|j: int| 0 <= j < i ==> !(#[trigger] self.rules@[j]).applies(client_info),
            decreases self.rules@.len() - i,
        {
            if self.rules[i].apply(client_info) {
                return true;
            }
            i += 1;
        }
        false
    }
}

impl Optional {
    /// A feature that the user can see has a name to select it by.
    pub open spec fn well_formed(&self) -> bool {
        self.visible ==> self.name is Some
    }

    /// The arguments that the feature injects, in the order of its actions.
    pub open spec fn args_view(&self) -> Seq<Seq<char>> {
        actions_args(self.actions@)
    }

    /// The files that the feature relocates, by location.
    pub open spec fn files_view(&self) -> BundleView {
        actions_files(self.actions@)
    }

    /// The feature is offered to the user of this client.
    pub open spec fn is_visible(&self, client_info: &ClientInfo) -> bool {
        self.visible && self.applies(client_info)
    }

    /// The feature takes part in a launch on this client: its rules hold, and
    /// it is hidden or the user selected it by name.
    pub open spec fn is_relevant(&self, client_info: &ClientInfo, selected: Seq<Seq<char>>) -> bool {
        self.applies(client_info) && (!self.visible || (self.name is Some && selected.contains(
            self.name.unwrap()@,
        )))
    }

    /// Whether the feature keeps the rule that a visible one has a name.
    pub fn is_well_formed(&self) -> (r: bool)
        ensures
            r == self.well_formed(),
    {
        !self.visible || self.name.is_some()
    }

    /// The arguments that the feature injects, in the order of its actions,
    /// whether or not its rules hold: the caller asks `relevant` first.
    pub fn get_args(&self) -> (r: Vec<String>)
        ensures
            texts(r@) == self.args_view(),
    {
        let mut args: Vec<String> = Vec::new();
        let mut i: usize = 0;
        assert(texts(args@) =~= actions_args(self.actions@.take(0)));
        while i < self.actions.len()
            invariant
                i <= self.actions@.len(),
                texts(args@) == actions_args(self.actions@.take(i as int)),
            decreases self.actions@.len() - i,
        {
            assert(self.actions@.take(i + 1).drop_last() =~= self.actions@.take(i as int));
            match &self.actions[i] {
                Action::Args(more) => {
                    append_texts(&mut args, more);
                },
                Action::Files(_) => {
                    assert(texts(args@) + Seq::<Seq<char>>::empty() =~= texts(args@));
                },
            }
            i += 1;
        }
        assert(self.actions@.take(i as int) =~= self.actions@);
        args
    }

    /// Whether the feature is offered to the user of this client: it is
    /// marked visible and one of its rules holds.
    pub fn visible(&self, client_info: &ClientInfo) -> (r: bool)
        ensures
            r == (self.visible && self.applies(client_info)),
            r == self.is_visible(client_info),
    {
        self.visible && self.apply(client_info)
    }

    /// Whether the feature takes part in a launch on this client: one of its
    /// rules holds, and it is hidden or its name is among `selected`.
    pub fn relevant(&self, client_info: &ClientInfo, selected: &Vec<String>) -> (r: bool)
        requires
            self.well_formed(),
        ensures
            r == self.is_relevant(client_info, texts(selected@)),
    {
        if !self.apply(client_info) {
            return false;
        }
        if !self.visible {
            return true;
        }
        match &self.name {
            Some(name) => contains_text(selected, name),
            None => false,
        }
    }

    /// The files that the feature relocates, by location, in the order of
    /// its actions. A location that an action names is in the result even where
    /// the action brings no file.
    pub fn get_files(&self) -> (r: FileBundle)
        ensures
            r@ == self.files_view(),
    {
        let mut bundle = FileBundle::new();
        let mut i: usize = 0;
        assert(self.actions@.take(0) =~= Seq::<Action>::empty());
        while i < self.actions.len()
            invariant
                i <= self.actions@.len(),
                bundle@ == actions_files(self.actions@.take(i as int)),
            decreases self.actions@.len() - i,
        {
            assert(self.actions@.take(i + 1).drop_last() =~= self.actions@.take(i as int));
            match &self.actions[i] {
                Action::Files(file_action) => {
                    bundle.add(file_action.location, &file_action.files);
                },
                Action::Args(_) => {
                    proof {
                        lemma_merge_bundles_associative(bundle@, Map::empty(), Map::empty());
                    }
                },
            }
            i += 1;
        }
        assert(self.actions@.take(i as int) =~= self.actions@);
        bundle
    }
}

/// A feature without rules applies to no client.
pub proof fn lemma_no_rules_never_apply(optional: Optional, client_info: ClientInfo)
    requires
        optional.rules@.len() == 0,
    ensures
        !optional.applies(&client_info),
{
}

/// For a hidden feature the user's selection decides nothing: it is relevant
/// exactly when its rules hold.
pub proof fn lemma_hidden_is_relevant_when_it_applies(
    optional: Optional,
    client_info: ClientInfo,
    selected: Seq<Seq<char>>,
)
    requires
        !optional.visible,
    ensures
        optional.is_relevant(&client_info, selected) == optional.applies(&client_info),
{
}

} // verus!
