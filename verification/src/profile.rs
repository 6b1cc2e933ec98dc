//! A launch profile and the launch configuration that is assembled from it:
//! the class path, the native library path and the argument vector.
//!
//! Every path is put together with `/` from parts in the slash form: the root
//! directory, the names that the profile gives. The slash form of a part is
//! what the host makes of it. A plain part, one that every host takes as it
//! is, is its own slash form, and a part that is plain but for its
//! backslashes has two, the part itself and the part with `/` for every
//! backslash; of any other part the methods of `Profile` say where it goes.
//! The functions that take the parts in their slash form are exact.

use std::path::Path;
use path_slash::PathExt;
use vstd::prelude::*;
use vstd::string::StringExecFns;
use crate::optional::Optional;
use crate::text::{append_texts, copy_texts, decimal, push_decimal, texts};

verus! {

/// Two `/` stand in `path` at `i` and behind it.
pub open spec fn doubled_slash(path: Seq<char>, i: int) -> bool {
    0 <= i && i + 1 < path.len() && path[i] == '/' && path[i + 1] == '/'
}

/// A component `.` stands in `path` at `i`, behind a `/`.
pub open spec fn dot_component(path: Seq<char>, i: int) -> bool {
    1 <= i < path.len() && path[i - 1] == '/' && path[i] == '.' && (i + 1 == path.len() || path[i
        + 1] == '/')
}

/// A path that every host takes as it is: it has no backslash, no `/` next
/// to another, no `/` at its end, and no component `.` behind a `/`.
pub open spec fn plain_path(path: Seq<char>) -> bool {
    &&& !path.contains('\\')
    &&& forall|i: int| !#[trigger] doubled_slash(path, i)
    &&& path.len() > 0 ==> path.last() != '/'
    &&& forall|i: int| !#[trigger] dot_component(path, i)
}

/// The path with `/` in the place of every backslash.
pub open spec fn with_slashes(path: Seq<char>) -> Seq<char> {
    path.map_values(
        |c: char|
            if c == '\\' {
                '/'
            } else {
                c
            },
    )
}

/// `slashed` can be the slash form of `path`. Where the path with `/` for
/// every backslash is plain, the slash form is that path on a host that
/// separates by backslash, and the path itself on every other host; so a plain
/// path is its own slash form everywhere. For any other path the slash form
/// is what the host makes of it.
pub open spec fn slash_form(path: Seq<char>, slashed: Seq<char>) -> bool {
    plain_path(with_slashes(path)) ==> slashed == path || slashed == with_slashes(path)
}

/// A plain path has no backslash to replace, and is its own slash form.
pub proof fn lemma_plain_slash_form(path: Seq<char>, slashed: Seq<char>)
    requires
        plain_path(path),
    ensures
        with_slashes(path) == path,
        slash_form(path, slashed) ==> slashed == path,
{
    assert forall|i: int| 0 <= i < path.len() implies with_slashes(path)[i] == path[i] by {
        assert(path.contains(path[i]));
    }
    assert(with_slashes(path) =~= path);
}

/// Each path of `slashed` can be the slash form of the path of `paths` at
/// the same place.
pub open spec fn slash_forms(paths: Seq<Seq<char>>, slashed: Seq<Seq<char>>) -> bool {
    &&& slashed.len() == paths.len()
    &&& forall|i: int| 0 <= i < paths.len() ==> slash_form(paths[i], #[trigger] slashed[i])
}

/// Every path of the list is plain.
pub open spec fn all_plain(paths: Seq<Seq<char>>) -> bool {
    forall|i: int| 0 <= i < paths.len() ==> plain_path(#[trigger] paths[i])
}

/// `PathExt::to_slash_lossy` of `path_slash`, taken on trust: the path with
/// `/` between its components. Elsewhere than on Windows every path comes
/// back as it is. On Windows the components are found and joined again with
/// `/`; where the path with `/` for every backslash is plain, that gives this
/// very path. Of any other path nothing is claimed: what comes back depends
/// on the host.
#[verifier::external_body]
fn to_slash(path: &str) -> (r: String)
    ensures
        slash_form(path@, r@),
{
    Path::new(path).to_slash_lossy()
}

/// A launch profile as the server declares it.
#[derive(Clone, Debug)]
pub struct Profile {
    pub name: String,
    pub version: String,
    pub libraries: Vec<String>,
    pub class_path: Vec<String>,
    pub client_args: Vec<String>,
    pub assets_dir: String,
    pub assets: String,
    pub server_name: String,
    pub server_port: u16,
    pub optionals: Vec<Optional>,
}

/// Who launches: the identity that a log-in gave.
#[derive(Clone, Debug)]
pub struct AuthInfo {
    pub uuid: String,
    pub access_token: String,
    pub username: String,
}

/// `part` below `base`.
pub open spec fn join(base: Seq<char>, part: Seq<char>) -> Seq<char> {
    base + seq!['/'] + part
}

/// The directory of a profile's own files below `root`.
pub open spec fn client_dir(root: Seq<char>, name: Seq<char>) -> Seq<char> {
    join(join(root, "profiles"@), name)
}

/// The directory of the native libraries of a version below `root`.
pub open spec fn natives_dir(root: Seq<char>, version: Seq<char>) -> Seq<char> {
    join(join(root, "natives"@), version)
}

/// The directory of the libraries below `root`.
pub open spec fn libraries_dir(root: Seq<char>) -> Seq<char> {
    join(root, "libraries"@)
}

/// Every item of `list` below `base`, in the same order.
pub open spec fn below(base: Seq<char>, list: Seq<Seq<char>>) -> Seq<Seq<char>> {
    list.map_values(|item: Seq<char>| join(base, item))
}

/// The items of `list` with `separator` between two of them, and nowhere
/// else.
pub open spec fn joined(list: Seq<Seq<char>>, separator: Seq<char>) -> Seq<char>
    decreases list.len(),
{
    if list.len() == 0 {
        Seq::empty()
    } else if list.len() == 1 {
        list.last()
    } else {
        joined(list.drop_last(), separator) + separator + list.last()
    }
}

/// The entries of the class path: `root/libraries/<library>` for every
/// library, then `root/profiles/<name>/<entry>` for every class path entry.
pub open spec fn class_path_entries_of(
    root: Seq<char>,
    name: Seq<char>,
    libraries: Seq<Seq<char>>,
    class_path: Seq<Seq<char>>,
) -> Seq<Seq<char>> {
    below(libraries_dir(root), libraries) + below(client_dir(root, name), class_path)
}

/// The class path option: the entries of the class path with the separator
/// between two of them.
pub open spec fn class_path_option_of(
    root: Seq<char>,
    name: Seq<char>,
    libraries: Seq<Seq<char>>,
    class_path: Seq<Seq<char>>,
    separator: Seq<char>,
) -> Seq<char> {
    "-Djava.class.path="@ + joined(
        class_path_entries_of(root, name, libraries, class_path),
        separator,
    )
}

/// The native library path option: `root/natives/<version>`.
pub open spec fn native_option_of(root: Seq<char>, version: Seq<char>) -> Seq<char> {
    "-Djava.library.path="@ + natives_dir(root, version)
}

/// What a launch is told besides the profile's own arguments.
pub struct LaunchView {
    pub root: Seq<char>,
    pub name: Seq<char>,
    pub assets_dir: Seq<char>,
    pub asset_index: Seq<char>,
    pub uuid: Seq<char>,
    pub access_token: Seq<char>,
    pub username: Seq<char>,
    pub server: Seq<char>,
    pub port: nat,
}

/// The eight fixed pairs of a launch, in their fixed order. The game
/// directory is `root/profiles/<name>`, the assets directory
/// `root/<assets_dir>`.
pub open spec fn fixed_args_of(launch: LaunchView) -> Seq<Seq<char>> {
    seq![
        "--gameDir"@,
        client_dir(launch.root, launch.name),
        "--assetsDir"@,
        join(launch.root, launch.assets_dir),
        "--assetIndex"@,
        launch.asset_index,
        "--uuid"@,
        launch.uuid,
        "--accessToken"@,
        launch.access_token,
        "--username"@,
        launch.username,
        "--server"@,
        launch.server,
        "--port"@,
        decimal(launch.port),
    ]
}

/// The argument vector of a launch: the profile's own arguments, the fixed
/// pairs, then the arguments of the optional features.
pub open spec fn launch_args_of(
    client_args: Seq<Seq<char>>,
    launch: LaunchView,
    optional_args: Seq<Seq<char>>,
) -> Seq<Seq<char>> {
    client_args + fixed_args_of(launch) + optional_args
}

fn join_paths(base: &str, part: &str) -> (r: String)
    ensures
        r@ == join(base@, part@),
{
    let mut path = String::from_str(base);
    path.append("/");
    path.append(part);
    proof {
        reveal_strlit("/");
        assert("/"@ =~= seq!['/']);
    }
    path
}

/// Every item of `list` below `base`, in the same order.
fn paths_below(base: &str, list: &Vec<String>) -> (r: Vec<String>)
    ensures
        texts(r@) == below(base@, texts(list@)),
{
    let mut paths: Vec<String> = Vec::new();
    let mut i: usize = 0;
    assert(texts(paths@) =~= below(base@, texts(list@)).take(0));
    while i < list.len()
        invariant
            i <= list@.len(),
            texts(paths@) == below(base@, texts(list@)).take(i as int),
        decreases list@.len() - i,
    {
        let ghost before = texts(paths@);
        paths.push(join_paths(base, list[i].as_str()));
        assert(texts(paths@) =~= before.push(join(base@, list@[i as int]@)));
        i += 1;
        assert(texts(paths@) =~= below(base@, texts(list@)).take(i as int));
    }
    assert(below(base@, texts(list@)).take(i as int) =~= below(base@, texts(list@)));
    paths
}

/// The items of `list` with `separator` between two of them.
pub fn join_texts(list: &Vec<String>, separator: &str) -> (r: String)
    ensures
        r@ == joined(texts(list@), separator@),
{
    let mut text = String::new();
    let mut i: usize = 0;
    assert(texts(list@).take(0) =~= Seq::<Seq<char>>::empty());
    while i < list.len()
        invariant
            i <= list@.len(),
            text@ == joined(texts(list@).take(i as int), separator@),
        decreases list@.len() - i,
    {
        proof {
            let next = texts(list@).take(i + 1);
            assert(next.drop_last() =~= texts(list@).take(i as int));
            assert(next.last() == list@[i as int]@);
        }
        if i > 0 {
            text.append(separator);
        }
        text.append(list[i].as_str());
        i += 1;
        assert(text@ =~= joined(texts(list@).take(i as int), separator@));
    }
    assert(texts(list@).take(i as int) =~= texts(list@));
    text
}

/// The class path option for a root, a profile name, libraries and class
/// path entries that are in the slash form.
pub fn class_path_option(
    root: &str,
    name: &str,
    libraries: &Vec<String>,
    class_path: &Vec<String>,
    separator: &str,
) -> (r: String)
    ensures
        r@ == class_path_option_of(
            root@,
            name@,
            texts(libraries@),
            texts(class_path@),
            separator@,
        ),
{
    let library_base = join_paths(root, "libraries");
    let profiles = join_paths(root, "profiles");
    let class_base = join_paths(profiles.as_str(), name);
    let mut entries = paths_below(library_base.as_str(), libraries);
    let more = paths_below(class_base.as_str(), class_path);
    append_texts(&mut entries, &more);
    let mut option = String::from_str("-Djava.class.path=");
    option.append(join_texts(&entries, separator).as_str());
    option
}

/// The native library path option for a root and a version that are in the
/// slash form.
pub fn native_option(root: &str, version: &str) -> (r: String)
    ensures
        r@ == native_option_of(root@, version@),
{
    let natives = join_paths(root, "natives");
    let path = join_paths(natives.as_str(), version);
    let mut option = String::from_str("-Djava.library.path=");
    option.append(path.as_str());
    option
}

/// The argument vector of a launch for a root, a profile name and an assets
/// directory that are in the slash form.
pub fn launch_args(
    client_args: &Vec<String>,
    root: &str,
    name: &str,
    assets_dir: &str,
    asset_index: &str,
    auth_info: AuthInfo,
    server: &str,
    port: u16,
    optional_args: &Vec<String>,
) -> (r: Vec<String>)
    ensures
        texts(r@) == launch_args_of(
            texts(client_args@),
            LaunchView {
                root: root@,
                name: name@,
                assets_dir: assets_dir@,
                asset_index: asset_index@,
                uuid: auth_info.uuid@,
                access_token: auth_info.access_token@,
                username: auth_info.username@,
                server: server@,
                port: port as nat,
            },
            texts(optional_args@),
        ),
{
    let ghost launch = LaunchView {
        root: root@,
        name: name@,
        assets_dir: assets_dir@,
        asset_index: asset_index@,
        uuid: auth_info.uuid@,
        access_token: auth_info.access_token@,
        username: auth_info.username@,
        server: server@,
        port: port as nat,
    };
    let mut args = copy_texts(client_args);
    let mut port_text = String::new();
    push_decimal(&mut port_text, port as u64);
    assert(port_text@ =~= decimal(port as nat));
    let profiles = join_paths(root, "profiles");
    let mut fixed: Vec<String> = Vec::new();
    fixed.push(String::from_str("--gameDir"));
    fixed.push(join_paths(profiles.as_str(), name));
    fixed.push(String::from_str("--assetsDir"));
    fixed.push(join_paths(root, assets_dir));
    fixed.push(String::from_str("--assetIndex"));
    fixed.push(String::from_str(asset_index));
    fixed.push(String::from_str("--uuid"));
    fixed.push(auth_info.uuid);
    fixed.push(String::from_str("--accessToken"));
    fixed.push(auth_info.access_token);
    fixed.push(String::from_str("--username"));
    fixed.push(auth_info.username);
    fixed.push(String::from_str("--server"));
    fixed.push(String::from_str(server));
    fixed.push(String::from_str("--port"));
    fixed.push(port_text);
    assert(texts(fixed@) =~= fixed_args_of(launch));
    append_texts(&mut args, &fixed);
    append_texts(&mut args, optional_args);
    args
}

/// Every path of `paths` in the slash form of the host, in the same order.
fn slash_all(paths: &Vec<String>) -> (r: Vec<String>)
    ensures
        slash_forms(texts(paths@), texts(r@)),
{
    let mut slashed: Vec<String> = Vec::new();
    let mut i: usize = 0;
    while i < paths.len()
        invariant
            i <= paths@.len(),
            slashed@.len() == i,
            forall|j: int| 0 <= j < i ==> slash_form(paths@[j]@, #[trigger] slashed@[j]@),
        decreases paths@.len() - i,
    {
        slashed.push(to_slash(paths[i].as_str()));
        i += 1;
    }
    assert forall|j: int| 0 <= j < texts(paths@).len() implies slash_form(
        texts(paths@)[j],
        #[trigger] texts(slashed@)[j],
    ) by {
        assert(slash_form(paths@[j]@, slashed@[j]@));
    }
    slashed
}

/// For plain paths the slash forms are the paths.
proof fn lemma_plain_slash_forms(paths: Seq<Seq<char>>, slashed: Seq<Seq<char>>)
    requires
        slash_forms(paths, slashed),
        all_plain(paths),
    ensures
        slashed == paths,
{
    assert forall|i: int| 0 <= i < paths.len() implies slashed[i] == paths[i] by {
        assert(slash_form(paths[i], slashed[i]));
        lemma_plain_slash_form(paths[i], slashed[i]);
    }
    assert(slashed =~= paths);
}

impl Profile {
    /// What a launch of this profile is told, for the slash forms of the
    /// root, of the profile's name and of its assets directory: the asset
    /// index of this profile, the identity of `auth_info`, and the server and
    /// port of `profile`.
    pub open spec fn launch_view(
        &self,
        root: Seq<char>,
        name: Seq<char>,
        assets_dir: Seq<char>,
        auth_info: AuthInfo,
        profile: Profile,
    ) -> LaunchView {
        LaunchView {
            root: root,
            name: name,
            assets_dir: assets_dir,
            asset_index: self.assets@,
            uuid: auth_info.uuid@,
            access_token: auth_info.access_token@,
            username: auth_info.username@,
            server: profile.server_name@,
            port: profile.server_port as nat,
        }
    }

    /// The directory of the profile's own files below the root `dir`, put
    /// together from the two as they are.
    pub fn get_client_dir(&self, dir: &str) -> (r: String)
        ensures
            r@ == client_dir(dir@, self.name@),
    {
        let profiles = join_paths(dir, "profiles");
        join_paths(profiles.as_str(), self.name.as_str())
    }

    /// The class path option of the profile below the root `dir`, with the
    /// host's separator of path lists. For the root, the profile's name, its
    /// libraries and its class path entries stand their slash forms, one for
    /// each, in the order of the profile. Where all of them are plain, they
    /// stand as they are; a part that is plain but for its backslashes stands
    /// as it is or with `/` for every backslash.
    pub fn create_lib_string(&self, dir: &str, separator: &str) -> (r: String)
        ensures
            exists|
                root: Seq<char>,
                name: Seq<char>,
                libraries: Seq<Seq<char>>,
                class_path: Seq<Seq<char>>,
            |
                slash_form(dir@, root) && slash_form(self.name@, name) && slash_forms(
                    texts(self.libraries@),
                    libraries,
                ) && slash_forms(texts(self.class_path@), class_path) && r@
                    == #[trigger] class_path_option_of(
                    root,
                    name,
                    libraries,
                    class_path,
                    separator@,
                ),
            plain_path(dir@) && plain_path(self.name@) && all_plain(texts(self.libraries@))
                && all_plain(texts(self.class_path@)) ==> r@ == class_path_option_of(
                dir@,
                self.name@,
                texts(self.libraries@),
                texts(self.class_path@),
                separator@,
            ),
    {
        let root = to_slash(dir);
        let name = to_slash(self.name.as_str());
        let libraries = slash_all(&self.libraries);
        let class_path = slash_all(&self.class_path);
        let option = class_path_option(
            root.as_str(),
            name.as_str(),
            &libraries,
            &class_path,
            separator,
        );
        proof {
            assert(slash_form(dir@, root@) && slash_form(self.name@, name@) && slash_forms(
                texts(self.libraries@),
                texts(libraries@),
            ) && slash_forms(texts(self.class_path@), texts(class_path@)) && option@
                == class_path_option_of(
                root@,
                name@,
                texts(libraries@),
                texts(class_path@),
                separator@,
            ));
            if plain_path(dir@) {
                lemma_plain_slash_form(dir@, root@);
            }
            if plain_path(self.name@) {
                lemma_plain_slash_form(self.name@, name@);
            }
            if all_plain(texts(self.libraries@)) {
                lemma_plain_slash_forms(texts(self.libraries@), texts(libraries@));
            }
            if all_plain(texts(self.class_path@)) {
                lemma_plain_slash_forms(texts(self.class_path@), texts(class_path@));
            }
        }
        option
    }

    /// The native library path option of the profile below the root `dir`.
    /// For the root and the profile's version stand their slash forms; where
    /// both are plain, they stand as they are.
    pub fn get_native_option(&self, dir: &str) -> (r: String)
        ensures
            exists|root: Seq<char>, version: Seq<char>|
                slash_form(dir@, root) && slash_form(self.version@, version) && r@
                    == #[trigger] native_option_of(root, version),
            plain_path(dir@) && plain_path(self.version@) ==> r@ == native_option_of(
                dir@,
                self.version@,
            ),
    {
        let root = to_slash(dir);
        let version = to_slash(self.version.as_str());
        let option = native_option(root.as_str(), version.as_str());
        proof {
            assert(slash_form(dir@, root@) && slash_form(self.version@, version@) && option@
                == native_option_of(root@, version@));
            if plain_path(dir@) && plain_path(self.version@) {
                lemma_plain_slash_form(dir@, root@);
                lemma_plain_slash_form(self.version@, version@);
            }
        }
        option
    }

    /// The argument vector of a launch of this profile below the root `dir`.
    /// For the root, the profile's name and its assets directory stand their
    /// slash forms, and where the three are plain, they stand as they are.
    /// Everything else is taken as it is: the arguments and the asset index
    /// from this profile, the identity from `auth_info`, server and port from
    /// `profile`.
    pub fn create_args(
        &self,
        dir: &str,
        auth_info: AuthInfo,
        profile: &Profile,
        optional_args: &Vec<String>,
    ) -> (r: Vec<String>)
        ensures
            exists|root: Seq<char>, name: Seq<char>, assets_dir: Seq<char>|
                slash_form(dir@, root) && slash_form(self.name@, name) && slash_form(
                    self.assets_dir@,
                    assets_dir,
                ) && texts(r@) == launch_args_of(
                    texts(self.client_args@),
                    #[trigger] self.launch_view(root, name, assets_dir, auth_info, *profile),
                    texts(optional_args@),
                ),
            plain_path(dir@) && plain_path(self.name@) && plain_path(self.assets_dir@) ==> texts(
                r@,
            ) == launch_args_of(
                texts(self.client_args@),
                self.launch_view(dir@, self.name@, self.assets_dir@, auth_info, *profile),
                texts(optional_args@),
            ),
    {
        let root = to_slash(dir);
        let name = to_slash(self.name.as_str());
        let assets_dir = to_slash(self.assets_dir.as_str());
        let ghost launch = self.launch_view(root@, name@, assets_dir@, auth_info, *profile);
        let args = launch_args(
            &self.client_args,
            root.as_str(),
            name.as_str(),
            assets_dir.as_str(),
            self.assets.as_str(),
            auth_info,
            profile.server_name.as_str(),
            profile.server_port,
            optional_args,
        );
        proof {
            assert(slash_form(dir@, root@) && slash_form(self.name@, name@) && slash_form(
                self.assets_dir@,
                assets_dir@,
            ) && texts(args@) == launch_args_of(
                texts(self.client_args@),
                launch,
                texts(optional_args@),
            ));
            if plain_path(dir@) && plain_path(self.name@) && plain_path(self.assets_dir@) {
                lemma_plain_slash_form(dir@, root@);
                lemma_plain_slash_form(self.name@, name@);
                lemma_plain_slash_form(self.assets_dir@, assets_dir@);
            }
        }
        args
    }
}

} // verus!
