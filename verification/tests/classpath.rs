use std::path::Path;
use vm_instance::classpath::{apex_name_of, find_apex_names_in_classpath};
use vm_instance::names::{order_of, Order};
use vm_instance::payload::collect_apex_names;

/// What the path type of the standard library says of a path.
fn by_path(path: &str) -> Option<Option<String>> {
    Path::new(path)
        .strip_prefix("/apex/")
        .ok()
        .map(|stripped| stripped.iter().next().map(|first| first.to_str().unwrap().to_string()))
}

fn strings(names: &[&str]) -> Vec<String> {
    names.iter().map(|name| name.to_string()).collect()
}

const PATHS: [&str; 30] = [
    "/apex/com.android.foo/javalib/foo.jar",
    "/system/framework/framework.jar",
    "/apex/com.android.bar",
    "/apex/com.android.bar/",
    "/apex",
    "/apex/",
    "/apex//",
    "/apex/.",
    "/apex/./",
    "//apex//foo//bar",
    "/apex/./foo",
    "/./apex/foo",
    "/././apex/./././foo/.",
    "apex/foo",
    "./apex/foo",
    "/apexx/foo",
    "/ape/x",
    "/apex/../foo",
    "/apex/..",
    "/../apex/foo",
    "",
    "/",
    ".",
    "/.",
    "/apex/.foo",
    "/apex/foo.",
    "/apex/...",
    "/apex/\u{e9}t\u{e9}/x",
    "/\u{e9}/apex/x",
    "/apex/a b/c",
];

#[test]
fn test_find_apex_names_in_classpath_env() {
    let classpath = "/apex/com.android.foo/javalib/foo.jar:/system/framework/framework.jar:/apex/com.android.bar/javalib/bar.jar";
    assert_eq!(
        find_apex_names_in_classpath(classpath),
        Some(vec!["com.android.foo".to_owned(), "com.android.bar".to_owned()])
    );
}

#[test]
fn apex_of_a_path_agrees_with_the_standard_library() {
    for path in PATHS {
        assert_eq!(apex_name_of(path), by_path(path), "{:?}", path);
    }
}

#[test]
fn apex_of_a_path() {
    assert_eq!(apex_name_of("/apex/com.android.foo/lib"), Some(Some("com.android.foo".to_owned())));
    assert_eq!(apex_name_of("//apex/./foo"), Some(Some("foo".to_owned())));
    assert_eq!(apex_name_of("/apex/../foo"), Some(Some("..".to_owned())));
    assert_eq!(apex_name_of("/apex"), Some(None));
    assert_eq!(apex_name_of("/apex/./"), Some(None));
    assert_eq!(apex_name_of("apex/foo"), None);
    assert_eq!(apex_name_of("/system/apex/foo"), None);
    assert_eq!(apex_name_of(""), None);
}

#[test]
fn empty_class_path_names_nothing() {
    assert_eq!(find_apex_names_in_classpath(""), Some(vec![]));
    assert_eq!(find_apex_names_in_classpath(":"), Some(vec![]));
    assert_eq!(find_apex_names_in_classpath(":::"), Some(vec![]));
    assert_eq!(find_apex_names_in_classpath("/system/a.jar:/product/b.jar"), Some(vec![]));
}

#[test]
fn names_come_in_the_order_of_the_paths_and_may_repeat() {
    assert_eq!(
        find_apex_names_in_classpath("/apex/b/x.jar:/apex/a/y.jar::/apex/b/z.jar:"),
        Some(strings(&["b", "a", "b"]))
    );
    assert_eq!(find_apex_names_in_classpath(":/apex/only"), Some(strings(&["only"])));
}

#[test]
fn path_that_stops_at_apex_gives_nothing() {
    assert_eq!(find_apex_names_in_classpath("/apex"), None);
    assert_eq!(find_apex_names_in_classpath("/apex/a/x.jar:/apex/:/apex/b/y.jar"), None);
    assert_eq!(find_apex_names_in_classpath("/system/a.jar:/apex/."), None);
}

#[test]
fn class_path_agrees_with_the_standard_library() {
    for first in PATHS {
        for second in ["/apex/z/z.jar", "/system/z.jar", ""] {
            let classpath = format!("{}:{}", first, second);
            let each: Vec<Option<Option<String>>> = classpath.split(':').map(by_path).collect();
            let expected: Option<Vec<String>> = if each.iter().any(|e| *e == Some(None)) {
                None
            } else {
                Some(each.into_iter().flatten().flatten().collect())
            };
            assert_eq!(find_apex_names_in_classpath(&classpath), expected, "{:?}", classpath);
        }
    }
}

#[test]
fn order_is_that_of_strings() {
    let texts = [
        "", "a", "A", "ab", "abc", "abd", "b", "com.android.adbd", "com.android.art", "z",
        "\u{e9}", "\u{e9}a", "\u{10000}", "\u{ffff}", "{BOOTCLASSPATH}", "~",
    ];
    for a in texts {
        for b in texts {
            let expected = if a < b {
                Order::Before
            } else if a == b {
                Order::Same
            } else {
                Order::After
            };
            assert_eq!(order_of(a, b), expected, "{:?} {:?}", a, b);
        }
    }
}

#[test]
fn collected_names_are_sorted_and_hold_the_required_apexes() {
    assert_eq!(
        collect_apex_names(&vec![], "", "", ""),
        Some(strings(&["com.android.adbd", "com.android.os.statsd"]))
    );
    assert_eq!(
        collect_apex_names(&strings(&["com.android.virt", "com.android.art"]), "", "", ""),
        Some(strings(&[
            "com.android.adbd",
            "com.android.art",
            "com.android.os.statsd",
            "com.android.virt"
        ]))
    );
    assert_eq!(
        collect_apex_names(
            &strings(&["com.android.os.statsd", "com.android.adbd", "com.android.adbd"]),
            "",
            "",
            ""
        ),
        Some(strings(&["com.android.adbd", "com.android.os.statsd"]))
    );
}

#[test]
fn names_in_braces_stand_for_class_paths() {
    let bootclasspath = "/apex/com.android.art/javalib/core.jar:/system/framework/a.jar";
    let dex2oat = "/apex/com.android.i18n/javalib/core-icu4j.jar";
    let systemserver = "/apex/com.android.wifi/javalib/service-wifi.jar:/apex/com.android.art/x";
    assert_eq!(
        collect_apex_names(
            &strings(&["{BOOTCLASSPATH}", "com.android.foo"]),
            bootclasspath,
            dex2oat,
            systemserver
        ),
        Some(strings(&[
            "com.android.adbd",
            "com.android.art",
            "com.android.foo",
            "com.android.os.statsd"
        ]))
    );
    assert_eq!(
        collect_apex_names(
            &strings(&["{SYSTEMSERVERCLASSPATH}", "{DEX2OATBOOTCLASSPATH}", "{BOOTCLASSPATH}"]),
            bootclasspath,
            dex2oat,
            systemserver
        ),
        Some(strings(&[
            "com.android.adbd",
            "com.android.art",
            "com.android.i18n",
            "com.android.os.statsd",
            "com.android.wifi"
        ]))
    );
    assert_eq!(
        collect_apex_names(&strings(&["{bootclasspath}", "BOOTCLASSPATH"]), bootclasspath, "", ""),
        Some(strings(&[
            "BOOTCLASSPATH",
            "com.android.adbd",
            "com.android.os.statsd",
            "{bootclasspath}"
        ]))
    );
}

#[test]
fn bad_class_path_matters_only_where_it_is_named() {
    assert_eq!(
        collect_apex_names(&strings(&["com.android.foo"]), "/apex", "/apex/", "/apex/."),
        Some(strings(&["com.android.adbd", "com.android.foo", "com.android.os.statsd"]))
    );
    assert_eq!(collect_apex_names(&strings(&["a", "{BOOTCLASSPATH}"]), "/apex", "", ""), None);
    assert_eq!(collect_apex_names(&strings(&["{DEX2OATBOOTCLASSPATH}"]), "", "/apex/", ""), None);
    assert_eq!(collect_apex_names(&strings(&["{SYSTEMSERVERCLASSPATH}"]), "", "", "/apex"), None);
}

#[test]
fn collected_names_agree_with_sort_and_dedup() {
    let configured =
        strings(&["zeta", "\u{e9}", "alpha", "{BOOTCLASSPATH}", "Zeta", "alpha", "com.android.b"]);
    let bootclasspath = "/apex/zz/a.jar:/apex/com.android.a/b.jar:/apex/alpha/c.jar";
    let mut expected = strings(&[
        "zeta",
        "\u{e9}",
        "alpha",
        "zz",
        "com.android.a",
        "alpha",
        "Zeta",
        "alpha",
        "com.android.b",
        "com.android.adbd",
        "com.android.os.statsd",
    ]);
    expected.sort();
    expected.dedup();
    assert_eq!(collect_apex_names(&configured, bootclasspath, "", ""), Some(expected));
}
