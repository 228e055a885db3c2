use vshell::error::ShellError;
use vshell::listing::{
    EntryInfo, FileKind, LinkTarget, LsCommand, LsFlags, PathClass,
};
use vshell::numfmt::{i64_to_string, u64_to_string};
use vshell::timefmt::{render_time, TimeParts};
use vshell::userdb::{lookup_name_by_id, parse_u32, split_on};

fn entry(name: &str, kind: FileKind, mode: u32) -> EntryInfo {
    EntryInfo {
        name: name.to_string(),
        kind,
        mode,
        nlink: 1,
        owner: "user".to_string(),
        group: "group".to_string(),
        size: 0,
        rdev: 0,
        mtime_secs: 0,
        has_xattr: false,
        link: LinkTarget::NotSymlink,
    }
}

#[test]
fn permissions_regular_644() {
    let ls = LsCommand;
    assert_eq!(ls.format_permissions(FileKind::Regular, 0o644), "-rw-r--r--");
}

#[test]
fn permissions_directory_755() {
    let ls = LsCommand;
    assert_eq!(ls.format_permissions(FileKind::Directory, 0o755), "drwxr-xr-x");
}

#[test]
fn permissions_setuid_with_owner_exec() {
    let ls = LsCommand;
    assert_eq!(ls.format_permissions(FileKind::Regular, 0o4755), "-rwsr-xr-x");
}

#[test]
fn permissions_setuid_without_owner_exec() {
    let ls = LsCommand;
    assert_eq!(ls.format_permissions(FileKind::Regular, 0o4655), "-rwSr-xr-x");
}

#[test]
fn permissions_setgid_and_sticky() {
    let ls = LsCommand;
    assert_eq!(ls.format_permissions(FileKind::Regular, 0o2710), "-rwx--s---");
    assert_eq!(ls.format_permissions(FileKind::Directory, 0o1777), "drwxrwxrwt");
    assert_eq!(ls.format_permissions(FileKind::Directory, 0o1776), "drwxrwxrwT");
}

#[test]
fn permissions_special_file_types() {
    let ls = LsCommand;
    assert_eq!(ls.format_permissions(FileKind::Symlink, 0o777), "lrwxrwxrwx");
    assert_eq!(ls.format_permissions(FileKind::CharDevice, 0o620), "crw--w----");
    assert_eq!(ls.format_permissions(FileKind::BlockDevice, 0o660), "brw-rw----");
    assert_eq!(ls.format_permissions(FileKind::Fifo, 0o644), "prw-r--r--");
    assert_eq!(ls.format_permissions(FileKind::Socket, 0o755), "srwxr-xr-x");
}

#[test]
fn permissions_extended_attribute_marker() {
    let ls = LsCommand;
    assert_eq!(
        ls.format_permissions_with_extended(FileKind::Regular, 0o644, true),
        "-rw-r--r--+"
    );
    assert_eq!(
        ls.format_permissions_with_extended(FileKind::Regular, 0o644, false),
        "-rw-r--r--"
    );
}

#[test]
fn major_minor_low_bits() {
    let ls = LsCommand;
    assert_eq!(ls.major_minor(0x0103), (1, 3));
}

#[test]
fn major_minor_high_bits() {
    let ls = LsCommand;
    // Bits above the low byte of the minor live from bit 20 up.
    assert_eq!(ls.major_minor(0x12345678), (0x456, 0x78 | 0x12300));
    assert_eq!(ls.major_minor(0x100103), (1, 0x103));
}

#[test]
fn extended_attribute_namespaces() {
    let ls = LsCommand;
    assert!(ls.is_extended_attribute("security.selinux"));
    assert!(ls.is_extended_attribute("user.comment"));
    assert!(ls.is_extended_attribute("system.posix_acl_access"));
    assert!(!ls.is_extended_attribute("weird.attr"));
    let names = vec!["weird.attr".to_string(), "trusted.thing".to_string()];
    assert!(ls.any_extended_attribute(&names));
    let none = vec!["weird.attr".to_string()];
    assert!(!ls.any_extended_attribute(&none));
}

#[test]
fn decorated_names_with_indicators() {
    let ls = LsCommand;
    let short = LsFlags { show_hidden: false, long_format: false, file_indicators: true };
    assert_eq!(ls.decorated_name("d", FileKind::Directory, 0o755, &short), "d/");
    assert_eq!(ls.decorated_name("l", FileKind::Symlink, 0o777, &short), "l@");
    assert_eq!(ls.decorated_name("p", FileKind::Fifo, 0o644, &short), "p|");
    assert_eq!(ls.decorated_name("s", FileKind::Socket, 0o755, &short), "s=");
    assert_eq!(ls.decorated_name("x", FileKind::Regular, 0o755, &short), "x*");
    assert_eq!(ls.decorated_name("f", FileKind::Regular, 0o644, &short), "f");
    let long = LsFlags { show_hidden: false, long_format: true, file_indicators: true };
    // In long format a symlink's indicator is omitted: the target
    // annotation carries the type instead.
    assert_eq!(ls.decorated_name("l", FileKind::Symlink, 0o777, &long), "l");
    let plain = LsFlags { show_hidden: false, long_format: false, file_indicators: false };
    assert_eq!(ls.decorated_name("d", FileKind::Directory, 0o755, &plain), "d");
}

#[test]
fn link_suffix_variants() {
    let ls = LsCommand;
    assert_eq!(ls.link_suffix(&LinkTarget::NotSymlink, true), "");
    assert_eq!(ls.link_suffix(&LinkTarget::Broken, true), " -> (broken)");
    let resolved = LinkTarget::Resolved {
        target: "/tmp/dir".to_string(),
        kind: Some(FileKind::Directory),
        mode: 0o755,
    };
    assert_eq!(ls.link_suffix(&resolved, true), " -> /tmp/dir/");
    assert_eq!(ls.link_suffix(&resolved, false), " -> /tmp/dir");
    let exec_target = LinkTarget::Resolved {
        target: "bin".to_string(),
        kind: Some(FileKind::Regular),
        mode: 0o755,
    };
    assert_eq!(ls.link_suffix(&exec_target, true), " -> bin*");
}

#[test]
fn size_field_shapes() {
    let ls = LsCommand;
    assert_eq!(ls.size_field(FileKind::Regular, 42, 0), "      42");
    assert_eq!(ls.size_field(FileKind::CharDevice, 0, 0x0103), "  1,     3");
}

#[test]
fn total_line_rounds_up_to_kibibytes() {
    let ls = LsCommand;
    assert_eq!(ls.total_line(&vec![3u64, 4u64]), "total 4");
    assert_eq!(ls.total_line(&vec![]), "total 0");
    assert_eq!(ls.total_line(&vec![8u64]), "total 4");
}

#[test]
fn missing_path_line() {
    let ls = LsCommand;
    assert_eq!(ls.missing_line("nope"), "ls: nope: No such file or directory");
}

#[test]
fn filter_hides_dotfiles_by_default() {
    let ls = LsCommand;
    let names = vec![".hidden".to_string(), "Banana".to_string(), "apple".to_string()];
    let kept = ls.filter_hidden(&names, false);
    assert_eq!(kept, vec!["Banana".to_string(), "apple".to_string()]);
    let all = ls.filter_hidden(&names, true);
    assert_eq!(all, names);
}

#[test]
fn sort_is_case_insensitive_and_strips_punctuation() {
    let ls = LsCommand;
    let mut entries = vec![
        entry("Banana", FileKind::Regular, 0o644),
        entry("apple", FileKind::Regular, 0o644),
        entry("_cherry", FileKind::Regular, 0o644),
    ];
    ls.sort_entries(&mut entries);
    let names: Vec<&str> = entries.iter().map(|e| e.name.as_str()).collect();
    // Keys: "banana", "apple", "cherry" - underscore stripped.
    assert_eq!(names, vec!["apple", "Banana", "_cherry"]);
}

#[test]
fn short_listing_after_filter_and_sort() {
    let ls = LsCommand;
    let names = vec![".hidden".to_string(), "Banana".to_string(), "apple".to_string()];
    let kept = ls.filter_hidden(&names, false);
    let mut entries: Vec<EntryInfo> = kept
        .iter()
        .map(|n| entry(n, FileKind::Regular, 0o644))
        .collect();
    ls.sort_entries(&mut entries);
    let flags = LsFlags { show_hidden: false, long_format: false, file_indicators: false };
    let line = ls.render_short_listing(&entries, &flags);
    assert_eq!(line, "apple  Banana  ");
}

#[test]
fn long_listing_aligns_columns() {
    let ls = LsCommand;
    let mut a = entry("a", FileKind::Regular, 0o644);
    a.size = 5;
    a.nlink = 1;
    a.owner = "bob".to_string();
    a.group = "g".to_string();
    let mut b = entry("b", FileKind::Regular, 0o644);
    b.size = 123456789;
    b.nlink = 12;
    b.owner = "alexander".to_string();
    b.group = "grp".to_string();
    let flags = LsFlags { show_hidden: false, long_format: true, file_indicators: false };
    let lines = ls.render_long_listing(&vec![a, b], &flags, 0);
    assert_eq!(lines.len(), 2);
    // Both size fields are pre-padded to eight columns, so they share a
    // width; the link counts and owners align on the batch maxima.
    assert!(lines[0].starts_with("-rw-r--r--  1 bob       g   "));
    assert!(lines[1].starts_with("-rw-r--r-- 12 alexander grp "));
    let tail0 = &lines[0][lines[0].len() - 2..];
    assert_eq!(tail0, " a");
    let tail1 = &lines[1][lines[1].len() - 2..];
    assert_eq!(tail1, " b");
}

#[test]
fn one_long_line_has_floor_widths() {
    let ls = LsCommand;
    let mut e = entry("file", FileKind::Regular, 0o644);
    e.size = 7;
    e.owner = "u".to_string();
    e.group = "g".to_string();
    let flags = LsFlags { show_hidden: false, long_format: true, file_indicators: false };
    let line = ls.format_one_long(&e, &flags, 0);
    assert!(line.starts_with("-rw-r--r-- 1 u g        7 "));
    assert!(line.ends_with(" file"));
}

#[test]
fn ls_parse_args_combined_flags() {
    let ls = LsCommand;
    let args = vec!["-la".to_string(), "dir".to_string()];
    let (flags, paths) = ls.parse_args(&args).unwrap();
    assert!(flags.show_hidden);
    assert!(flags.long_format);
    assert!(!flags.file_indicators);
    assert_eq!(paths, vec!["dir".to_string()]);
}

#[test]
fn ls_parse_args_double_dash_and_lone_dash() {
    let ls = LsCommand;
    let args = vec!["-".to_string(), "--".to_string(), "-F".to_string()];
    let (flags, paths) = ls.parse_args(&args).unwrap();
    assert!(!flags.file_indicators);
    assert_eq!(paths, vec!["-".to_string(), "-F".to_string()]);
}

#[test]
fn ls_parse_args_invalid_option() {
    let ls = LsCommand;
    let args = vec!["-q".to_string()];
    match ls.parse_args(&args) {
        Err(ShellError::ExecutionError(m)) => {
            assert_eq!(m, "ls: invalid option -- 'q'");
        },
        other => panic!("unexpected: {:?}", other),
    }
}

#[test]
fn split_paths_by_class() {
    let ls = LsCommand;
    let paths = vec!["f".to_string(), "d".to_string(), "m".to_string(), "dev".to_string()];
    let classes = vec![PathClass::File, PathClass::Dir, PathClass::Missing, PathClass::OtherExisting];
    let (files, dirs, missing) = ls.split_paths(&paths, &classes);
    assert_eq!(files, vec!["f".to_string(), "dev".to_string()]);
    assert_eq!(dirs, vec!["d".to_string()]);
    assert_eq!(missing, vec!["m".to_string()]);
}

#[test]
fn effective_paths_default_to_current_dir() {
    let ls = LsCommand;
    assert_eq!(ls.effective_paths(vec![]), vec![".".to_string()]);
    assert_eq!(ls.effective_paths(vec!["x".to_string()]), vec!["x".to_string()]);
}

#[test]
fn directory_layout_decisions() {
    let ls = LsCommand;
    assert!(!ls.needs_blank_before_dir(0, 0));
    assert!(ls.needs_blank_before_dir(1, 0));
    assert!(ls.needs_blank_before_dir(0, 1));
    assert!(!ls.needs_dir_header(0, 1));
    assert!(ls.needs_dir_header(0, 2));
    assert!(ls.needs_dir_header(3, 1));
    assert_eq!(ls.dir_header_line("sub"), "sub:");
}

#[test]
fn decimal_rendering() {
    assert_eq!(u64_to_string(0), "0");
    assert_eq!(u64_to_string(1234567), "1234567");
    assert_eq!(u64_to_string(u64::MAX), "18446744073709551615");
    assert_eq!(i64_to_string(-42), "-42");
    assert_eq!(i64_to_string(i64::MIN), "-9223372036854775808");
}

#[test]
fn time_rendering_recent_and_old() {
    let p = TimeParts { year: 2024, month: 5, day: 7, hour: 9, minute: 3 };
    assert_eq!(render_time(&p, true), "May 07 09:03");
    assert_eq!(render_time(&p, false), "May 07  2024");
    let q = TimeParts { year: 99, month: 12, day: 31, hour: 23, minute: 59 };
    assert_eq!(render_time(&q, true), "Dec 31 23:59");
    assert_eq!(render_time(&q, false), "Dec 31  0099");
}

#[test]
fn format_time_uses_local_calendar_fields() {
    let ls = LsCommand;
    // 2024-05-07 09:03:00 UTC. Whatever the machine's time zone, the
    // local date stays in May 2024 (that moment is far from both a day
    // shift across the year boundary and the month's edges beyond one
    // day), and the old-format rendering shows the year.
    let mtime: i64 = 1715072580;
    let old = ls.format_time(mtime, mtime + 365 * 24 * 3600);
    assert_eq!(old.len(), 12);
    assert!(old.starts_with("May 0"));
    assert!(old.ends_with("2024"));
    let recent = ls.format_time(mtime, mtime + 3600);
    assert_eq!(recent.len(), 12);
    assert!(recent.starts_with("May 0"));
    assert_eq!(recent.as_bytes()[9], b':');
}

#[test]
fn render_time_negative_year() {
    let p = TimeParts { year: -1, month: 1, day: 2, hour: 0, minute: 0 };
    assert_eq!(render_time(&p, false), "Jan 02  -0001");
}

#[test]
fn parse_u32_accepts_plus_and_rejects_junk() {
    assert_eq!(parse_u32("0"), Some(0));
    assert_eq!(parse_u32("+12"), Some(12));
    assert_eq!(parse_u32("4294967295"), Some(u32::MAX));
    assert_eq!(parse_u32("4294967296"), None);
    assert_eq!(parse_u32("12a"), None);
    assert_eq!(parse_u32(""), None);
    assert_eq!(parse_u32("+"), None);
    assert_eq!(parse_u32("-1"), None);
}

#[test]
fn split_on_keeps_empty_pieces() {
    assert_eq!(split_on("a:b::c", ':'), vec!["a", "b", "", "c"]);
    assert_eq!(split_on("", ':'), vec![""]);
    assert_eq!(split_on(":", ':'), vec!["", ""]);
}

#[test]
fn database_lookup_finds_first_match() {
    let db = "root:x:0:0:root:/root:/bin/bash\nbad line\nuser:x:1000:1000::/home/u:/bin/sh\n";
    assert_eq!(lookup_name_by_id(db, 0), Some("root".to_string()));
    assert_eq!(lookup_name_by_id(db, 1000), Some("user".to_string()));
    assert_eq!(lookup_name_by_id(db, 77), None);
}

#[test]
fn database_lookup_skips_unparsable_ids() {
    let db = "odd:x:notanumber:0\nreal:x:5:5";
    assert_eq!(lookup_name_by_id(db, 5), Some("real".to_string()));
}
