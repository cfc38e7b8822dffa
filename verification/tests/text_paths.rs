use bootr::bconf::defaults::kerneldirs;
use bootr::bconf::defaults::sysdirs;
use bootr::bconf::defaults::C_BOOTR_SCRATCH_DIR;
use bootr::bconf::defaults::LinkName;
use bootr::bconf::defaults::PathCatalog;
use bootr::bconf::defaults::SlotId;
use bootr::bconf::defaults::C_BOOTR_ROOT;
use bootr::bconf::defaults::C_BOOTR_SECT_INSTALLED_MARKER;
use bootr::bconf::defaults::C_BOOTR_SECT_OCI_META;
use bootr::bconf::defaults::C_BOOTR_SECT_RFS_DIR;
use bootr::bconf::defaults::C_BOOTR_SECT_STATUS;
use bootr::error::BootrError;
use bootr::files::plan_for;
use bootr::files::write_plan;
use bootr::files::FileProbe;
use bootr::text::chars_of;
use bootr::text::joined;
use bootr::text::ends_with;
use bootr::text::join;
use bootr::text::same;
use bootr::text::split_path;
use bootr::text::starts_with;
use bootr::text::strip_prefix;
use bootr::text::trim_start_matches;

#[test]
fn chars_of_keeps_order() {
    assert_eq!(chars_of("a/b"), vec!['a', '/', 'b']);
    assert_eq!(chars_of(""), Vec::<char>::new());
    assert_eq!(chars_of("é.x"), vec!['é', '.', 'x']);
}

#[test]
fn same_compares_texts() {
    assert!(same("abc", "abc"));
    assert!(same("", ""));
    assert!(!same("abc", "abd"));
    assert!(!same("abc", "ab"));
    assert!(!same("ab", "abc"));
}

#[test]
fn starts_with_is_prefix() {
    assert!(starts_with(".wh.x", ".wh."));
    assert!(starts_with(".wh.", ".wh."));
    assert!(starts_with("abc", ""));
    assert!(!starts_with(".wh", ".wh."));
    assert!(!starts_with("a.wh.x", ".wh."));
}

#[test]
fn ends_with_is_suffix() {
    assert!(ends_with("application/vnd.oci.image.layer.v1.tar+gzip", ".tar+gzip"));
    assert!(ends_with("x", ""));
    assert!(!ends_with("gzip", ".tar+gzip"));
    assert!(!ends_with("application/vnd.oci.image.layer.v1.tar", ".tar+gzip"));
}

#[test]
fn joined_and_join() {
    assert_eq!(joined("ab", "cd"), "abcd");
    assert_eq!(joined("", "cd"), "cd");
    assert_eq!(join("/bootr", "system"), "/bootr/system");
    assert_eq!(join("", "x"), "/x");
    assert_eq!(join("a/", "x"), "a//x");
}

#[test]
fn trim_start_matches_removes_every_repetition() {
    assert_eq!(trim_start_matches("sha256:abc", "sha256:"), "abc");
    assert_eq!(trim_start_matches("sha256:sha256:abc", "sha256:"), "abc");
    assert_eq!(trim_start_matches("abc", "sha256:"), "abc");
    assert_eq!(trim_start_matches("sha256:", "sha256:"), "");
    assert_eq!(trim_start_matches("abc", ""), "abc");
    assert_eq!(trim_start_matches("xsha256:abc", "sha256:"), "xsha256:abc");
}

#[test]
fn strip_prefix_removes_one() {
    assert_eq!(strip_prefix("/a/b/c", "/a/"), Some(String::from("b/c")));
    assert_eq!(strip_prefix("/a/", "/a/"), Some(String::new()));
    assert_eq!(strip_prefix("/a", "/a/"), None);
    assert_eq!(strip_prefix("aab", "a"), Some(String::from("ab")));
}

#[test]
fn split_path_at_last_slash() {
    assert_eq!(split_path("opt/svc/.wh.x"), (String::from("opt/svc/"), String::from(".wh.x")));
    assert_eq!(split_path("file"), (String::new(), String::from("file")));
    assert_eq!(split_path("/bootr/system/A"), (String::from("/bootr/system/"), String::from("A")));
    assert_eq!(split_path("dir/"), (String::from("dir/"), String::new()));
    assert_eq!(split_path(""), (String::new(), String::new()));
}

#[test]
fn catalog_default_paths() {
    let c = PathCatalog::new();
    assert_eq!(C_BOOTR_ROOT, "/bootr");
    assert_eq!(c.root, "/bootr");
    assert_eq!(c.config(), "/bootr/config");
    assert_eq!(c.sysdir(), "/bootr/system");
    assert_eq!(c.slot(SlotId::A), "/bootr/system/A");
    assert_eq!(c.slot(SlotId::B), "/bootr/system/B");
    assert_eq!(c.slot(SlotId::Temp), "/bootr/system/.temp");
    assert_eq!(c.link(LinkName::Current), "/bootr/system/current");
    assert_eq!(c.link(LinkName::Staging), "/bootr/system/current.temp");
}

#[test]
fn catalog_slot_entries() {
    let c = PathCatalog::at("/mnt/x");
    assert_eq!(c.slot_entry(SlotId::A, C_BOOTR_SECT_STATUS), "/mnt/x/system/A/status");
    assert_eq!(c.slot_entry(SlotId::B, C_BOOTR_SECT_OCI_META), "/mnt/x/system/B/oci-meta");
    assert_eq!(c.slot_entry(SlotId::Temp, C_BOOTR_SECT_RFS_DIR), "/mnt/x/system/.temp/rootfs");
    assert_eq!(
        c.slot_entry(SlotId::A, C_BOOTR_SECT_INSTALLED_MARKER),
        "/mnt/x/system/A/.installed"
    );
}

#[test]
fn slot_and_link_names() {
    assert_eq!(SlotId::A.name(), "A");
    assert_eq!(SlotId::B.name(), "B");
    assert_eq!(SlotId::Temp.name(), ".temp");
    assert_eq!(LinkName::Current.name(), "current");
    assert_eq!(LinkName::Staging.name(), "current.temp");
    assert_eq!(SlotId::A.other(), SlotId::B);
    assert_eq!(SlotId::B.other(), SlotId::A);
    assert_eq!(SlotId::Temp.other(), SlotId::Temp);
}

#[test]
fn reserved_host_directories() {
    assert_eq!(sysdirs(), vec!["dev", "proc", "sys", "run"]);
    assert_eq!(kerneldirs(), vec!["boot", "lib/modules"]);
    assert_eq!(C_BOOTR_SCRATCH_DIR, "tmp");
}

#[test]
fn write_plan_goes_by_a_sibling() {
    let plan = write_plan("/bootr/system/.temp", "oci-meta", true).unwrap();
    assert_eq!(plan.dest, "/bootr/system/.temp/oci-meta");
    assert_eq!(plan.temp, "/bootr/system/.temp/oci-meta.tmp");
    let plan = plan_for("/x/status");
    assert_eq!(plan.dest, "/x/status");
    assert_eq!(plan.temp, "/x/status.tmp");
}

#[test]
fn write_plan_needs_the_directory() {
    assert_eq!(write_plan("/nowhere", "oci-meta", false), Err(BootrError::NotFound));
}

#[test]
fn file_probe_gives_each_error() {
    assert_eq!(FileProbe::<u8>::Missing.loaded(), Err(BootrError::NotFound));
    assert_eq!(FileProbe::<u8>::Unreadable.loaded(), Err(BootrError::Io));
    assert_eq!(FileProbe::<u8>::Invalid.loaded(), Err(BootrError::InvalidData));
    assert_eq!(FileProbe::Loaded(7u8).loaded(), Ok(7u8));
}
