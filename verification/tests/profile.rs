use launch_core::profile::{
    class_path_option, join_texts, launch_args, native_option, AuthInfo, Profile,
};
use launch_core::text::decimal_string;

fn strings(items: &[&str]) -> Vec<String> {
    items.iter().map(|s| s.to_string()).collect()
}

fn profile() -> Profile {
    Profile {
        name: "main".to_string(),
        version: "1.16.5".to_string(),
        libraries: strings(&["a.jar", "b.jar"]),
        class_path: strings(&["main.jar"]),
        client_args: strings(&["--demo", "--width", "800"]),
        assets_dir: "assets1.16".to_string(),
        assets: "1.16".to_string(),
        server_name: "play.example.org".to_string(),
        server_port: 25565,
        optionals: vec![],
    }
}

fn identity() -> AuthInfo {
    AuthInfo {
        uuid: "123e4567-e89b-12d3-a456-426614174000".to_string(),
        access_token: "0123456789abcdef0123456789abcdef".to_string(),
        username: "Test".to_string(),
    }
}

#[test]
fn class_path_of_two_libraries_and_one_entry() {
    let option = profile().create_lib_string("/game", ":");
    assert_eq!(
        option,
        "-Djava.class.path=/game/libraries/a.jar:/game/libraries/b.jar:/game/profiles/main/main.jar"
    );
}

#[test]
fn class_path_is_the_same_on_every_call() {
    let p = profile();
    let first = p.create_lib_string("/game", ":");
    let _ = p.get_native_option("/elsewhere");
    let _ = profile().create_lib_string("/other", ";");
    let second = p.create_lib_string("/game", ":");
    assert_eq!(first, second);
}

#[test]
fn class_path_for_given_parts() {
    assert_eq!(
        class_path_option("C:/game", "main", &strings(&["a.jar"]), &strings(&["x.jar", "y.jar"]), ";"),
        "-Djava.class.path=C:/game/libraries/a.jar;C:/game/profiles/main/x.jar;C:/game/profiles/main/y.jar"
    );
    assert_eq!(
        class_path_option("/game", "main", &strings(&["a.jar"]), &strings(&[]), ":"),
        "-Djava.class.path=/game/libraries/a.jar"
    );
    assert_eq!(
        class_path_option("/game", "main", &strings(&["a.jar", "b.jar"]), &strings(&[]), ":"),
        "-Djava.class.path=/game/libraries/a.jar:/game/libraries/b.jar"
    );
    assert_eq!(
        class_path_option("/game", "main", &strings(&[]), &strings(&["x.jar"]), ":"),
        "-Djava.class.path=/game/profiles/main/x.jar"
    );
    assert_eq!(
        class_path_option("/game", "main", &strings(&[]), &strings(&[]), ":"),
        "-Djava.class.path="
    );
}

#[test]
fn native_library_path_is_below_natives() {
    assert_eq!(profile().get_native_option("/game"), "-Djava.library.path=/game/natives/1.16.5");
    assert_eq!(native_option("C:/game", "1.12"), "-Djava.library.path=C:/game/natives/1.12");
}

#[test]
fn client_directory_is_below_profiles() {
    assert_eq!(profile().get_client_dir("/game"), "/game/profiles/main");
}

#[test]
fn arguments_come_in_the_fixed_order() {
    let p = profile();
    let mut other = profile();
    other.server_name = "other.example.org".to_string();
    other.server_port = 80;
    let args = p.create_args("/game", identity(), &other, &strings(&["--shaders", "on"]));
    assert_eq!(
        args,
        strings(&[
            "--demo",
            "--width",
            "800",
            "--gameDir",
            "/game/profiles/main",
            "--assetsDir",
            "/game/assets1.16",
            "--assetIndex",
            "1.16",
            "--uuid",
            "123e4567-e89b-12d3-a456-426614174000",
            "--accessToken",
            "0123456789abcdef0123456789abcdef",
            "--username",
            "Test",
            "--server",
            "other.example.org",
            "--port",
            "80",
            "--shaders",
            "on",
        ])
    );
}

#[test]
fn arguments_for_given_parts() {
    let args = launch_args(
        &strings(&[]),
        "/r",
        "n",
        "a",
        "idx",
        identity(),
        "host",
        65535,
        &strings(&[]),
    );
    assert_eq!(args.len(), 16);
    assert_eq!(args[1], "/r/profiles/n");
    assert_eq!(args[3], "/r/a");
    assert_eq!(args[5], "idx");
    assert_eq!(args[13], "host");
    assert_eq!(args[14], "--port");
    assert_eq!(args[15], "65535");
}

#[test]
fn numbers_are_written_in_decimal() {
    assert_eq!(decimal_string(0), "0");
    assert_eq!(decimal_string(7), "7");
    assert_eq!(decimal_string(10), "10");
    assert_eq!(decimal_string(25565), "25565");
    assert_eq!(decimal_string(u64::MAX), u64::MAX.to_string());
}

#[test]
fn class_path_has_the_separator_only_between_two_entries() {
    let mut p = profile();
    p.class_path = vec![];
    p.libraries = strings(&["a.jar"]);
    let option = p.create_lib_string("/game", ":");
    assert_eq!(option, "-Djava.class.path=/game/libraries/a.jar");
    for (libraries, class_path) in [(0, 0), (0, 1), (1, 0), (2, 0), (1, 1), (3, 2)] {
        p.libraries = (0..libraries).map(|i| format!("l{}.jar", i)).collect();
        p.class_path = (0..class_path).map(|i| format!("c{}.jar", i)).collect();
        let option = p.create_lib_string("/game", ":");
        let rest = option.strip_prefix("-Djava.class.path=").unwrap();
        let parts: Vec<&str> = if rest.is_empty() { vec![] } else { rest.split(':').collect() };
        assert_eq!(parts.len(), libraries + class_path);
        for (i, part) in parts.iter().enumerate() {
            if i < libraries {
                assert_eq!(*part, format!("/game/libraries/l{}.jar", i));
            } else {
                assert_eq!(*part, format!("/game/profiles/main/c{}.jar", i - libraries));
            }
        }
    }
}

#[test]
fn texts_are_joined_with_the_separator_between_them() {
    assert_eq!(join_texts(&strings(&[]), ":"), "");
    assert_eq!(join_texts(&strings(&["a"]), ":"), "a");
    assert_eq!(join_texts(&strings(&["a", "b", "c"]), ", "), "a, b, c");
    assert_eq!(join_texts(&strings(&["", ""]), ";"), ";");
}

#[test]
fn plain_parts_stand_as_they_are() {
    let mut p = profile();
    p.name = "sub/main".to_string();
    p.version = "1.16.5".to_string();
    p.assets_dir = "../shared/assets".to_string();
    assert_eq!(p.get_native_option("C:/game"), "-Djava.library.path=C:/game/natives/1.16.5");
    assert_eq!(p.get_native_option("./game"), "-Djava.library.path=./game/natives/1.16.5");
    let args = p.create_args("/game", identity(), &profile(), &strings(&[]));
    assert_eq!(args[4], "/game/profiles/sub/main");
    assert_eq!(args[6], "/game/../shared/assets");
}

#[test]
fn a_root_with_backslashes_stands_as_it_is_or_with_slashes() {
    let p = profile();
    let option = p.get_native_option("C:\\game");
    let as_it_is = "-Djava.library.path=C:\\game/natives/1.16.5";
    let with_slashes = "-Djava.library.path=C:/game/natives/1.16.5";
    assert!(option == as_it_is || option == with_slashes, "{}", option);
    let class_path = p.create_lib_string("C:\\game", ";");
    assert!(
        class_path
            == "-Djava.class.path=C:\\game/libraries/a.jar;C:\\game/libraries/b.jar;C:\\game/profiles/main/main.jar"
            || class_path
                == "-Djava.class.path=C:/game/libraries/a.jar;C:/game/libraries/b.jar;C:/game/profiles/main/main.jar",
        "{}",
        class_path
    );
}
