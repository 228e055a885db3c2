//! The `ls` emulation: permission strings, device major/minor numbers,
//! type indicators, symlink annotations, column alignment, sorting and
//! dot-file filtering. The caller gathers each entry's metadata into an
//! `EntryInfo` of plain values; everything from there to the printed line
//! is verified.

use vstd::prelude::*;
use vstd::string::StrSliceExecFns;
use vstd::string::StringExecFns;
use crate::error::ShellError;
use crate::numfmt::{dec_seq, u64_to_string};
use crate::strutil::{
    chars_of_str, is_prefix_of, pad_left, pad_left_spec, pad_right, pad_right_spec,
    str_eq, str_has_prefix, string_from_chars,
};
use crate::timefmt::{
    is_recent, local_time_parts, render_time, time_parts_wf, time_string, TimeParts,
};

verus! {

/// The `ls` command: argument scanning and every formatting rule of the
/// listing. The command itself carries no state.
pub struct LsCommand;

/// The three flags `ls` accepts: `-a`, `-l` and `-F`.
#[derive(Debug)]
pub struct LsFlags {
    pub show_hidden: bool,
    pub long_format: bool,
    pub file_indicators: bool,
}

/// What kind of file system object an entry is.
#[derive(Debug, Clone, Copy, PartialEq, Eq, Structural)]
pub enum FileKind {
    Regular,
    Directory,
    Symlink,
    CharDevice,
    BlockDevice,
    Fifo,
    Socket,
}

/// What is known of a symlink's target: the entry is no symlink, the link
/// is broken (its target could not be read), or the target path together
/// with the target's kind and mode when following the link succeeded.
pub enum LinkTarget {
    NotSymlink,
    Broken,
    Resolved { target: String, kind: Option<FileKind>, mode: u32 },
}

/// One directory entry's metadata, reduced to plain values: everything a
/// listing line shows. Owner and group arrive already resolved to names.
pub struct EntryInfo {
    pub name: String,
    pub kind: FileKind,
    pub mode: u32,
    pub nlink: u64,
    pub owner: String,
    pub group: String,
    pub size: u64,
    pub rdev: u64,
    pub mtime_secs: i64,
    pub has_xattr: bool,
    pub link: LinkTarget,
}

/// The type character leading a permission string.
pub open spec fn kind_char(k: FileKind) -> char {
    match k {
        FileKind::Regular => '-',
        FileKind::Directory => 'd',
        FileKind::Symlink => 'l',
        FileKind::CharDevice => 'c',
        FileKind::BlockDevice => 'b',
        FileKind::Fifo => 'p',
        FileKind::Socket => 's',
    }
}

/// The ten-character permission string: the type character, then the
/// rwx triplets for owner, group and other, with the setuid, setgid and
/// sticky bits overlaying the execute positions (`s`/`t` when the execute
/// bit is also set, `S`/`T` when it is not).
pub open spec fn perm_string(k: FileKind, mode: u32) -> Seq<char> {
    seq![
        kind_char(k),
        if mode & 0o400 != 0 { 'r' } else { '-' },
        if mode & 0o200 != 0 { 'w' } else { '-' },
        if mode & 0o4000 != 0 {
            if mode & 0o100 != 0 { 's' } else { 'S' }
        } else {
            if mode & 0o100 != 0 { 'x' } else { '-' }
        },
        if mode & 0o040 != 0 { 'r' } else { '-' },
        if mode & 0o020 != 0 { 'w' } else { '-' },
        if mode & 0o2000 != 0 {
            if mode & 0o010 != 0 { 's' } else { 'S' }
        } else {
            if mode & 0o010 != 0 { 'x' } else { '-' }
        },
        if mode & 0o004 != 0 { 'r' } else { '-' },
        if mode & 0o002 != 0 { 'w' } else { '-' },
        if mode & 0o1000 != 0 {
            if mode & 0o001 != 0 { 't' } else { 'T' }
        } else {
            if mode & 0o001 != 0 { 'x' } else { '-' }
        },
    ]
}

/// The permission string with a trailing `+` when the entry carries
/// extended attributes.
pub open spec fn perm_string_ext(k: FileKind, mode: u32, has_xattr: bool) -> Seq<char> {
    perm_string(k, mode) + (if has_xattr {
        seq!['+']
    } else {
        Seq::<char>::empty()
    })
}

/// The device major number packed into a raw device id.
pub open spec fn spec_major(rdev: u64) -> u64 {
    (rdev >> 8) & 0xfff
}

/// The device minor number packed into a raw device id.
pub open spec fn spec_minor(rdev: u64) -> u64 {
    (rdev & 0xff) | ((rdev >> 12) & 0xfffff00)
}

/// The type-indicator character appended to a name under `-F`: `/` for a
/// directory, `@` for a symlink (only outside long format, where the
/// target annotation carries the type instead), `|` for a FIFO, `=` for a
/// socket, and `*` for anything else with an execute bit set.
pub open spec fn indicator(k: FileKind, mode: u32, long_format: bool) -> Seq<char> {
    match k {
        FileKind::Directory => seq!['/'],
        FileKind::Symlink => if !long_format {
            seq!['@']
        } else {
            Seq::<char>::empty()
        },
        FileKind::Fifo => seq!['|'],
        FileKind::Socket => seq!['='],
        _ => if mode & 0o111 != 0 {
            seq!['*']
        } else {
            Seq::<char>::empty()
        },
    }
}

/// A display name: the entry's name, plus its type indicator when `-F` is
/// active.
pub open spec fn decorated_name_spec(
    name: Seq<char>,
    k: FileKind,
    mode: u32,
    file_indicators: bool,
    long_format: bool,
) -> Seq<char> {
    if file_indicators {
        name + indicator(k, mode, long_format)
    } else {
        name
    }
}

/// The indicator appended to a symlink's target under `-F`, from the
/// target's own kind and mode (none when the target is unknown).
pub open spec fn target_indicator(kind: Option<FileKind>, mode: u32) -> Seq<char> {
    match kind {
        Option::None => Seq::<char>::empty(),
        Option::Some(k) => match k {
            FileKind::Socket => seq!['='],
            FileKind::Directory => seq!['/'],
            FileKind::Fifo => seq!['|'],
            _ => if mode & 0o111 != 0 {
                seq!['*']
            } else {
                Seq::<char>::empty()
            },
        },
    }
}

/// The ` -> target` annotation of a long-format line: empty for ordinary
/// entries, `" -> (broken)"` for an unreadable link, and the target — with
/// its own indicator under `-F` — otherwise.
pub open spec fn link_suffix_spec(link: LinkTarget, file_indicators: bool) -> Seq<char> {
    match link {
        LinkTarget::NotSymlink => Seq::<char>::empty(),
        LinkTarget::Broken => " -> (broken)"@,
        LinkTarget::Resolved { target, kind, mode } => " -> "@ + target@ + (if file_indicators {
            target_indicator(kind, mode)
        } else {
            Seq::<char>::empty()
        }),
    }
}

/// The size column: `major, minor` for device files (widths 3 and 5),
/// else the byte size right-justified to eight columns.
pub open spec fn size_field_spec(k: FileKind, size: u64, rdev: u64) -> Seq<char> {
    if k == FileKind::CharDevice || k == FileKind::BlockDevice {
        pad_left_spec(dec_seq(spec_major(rdev) as nat), 3) + ", "@ + pad_left_spec(
            dec_seq(spec_minor(rdev) as nat),
            5,
        )
    } else {
        pad_left_spec(dec_seq(size as nat), 8)
    }
}

/// The text of each column of one long-format line, before alignment.
pub struct LongFields {
    pub perms: String,
    pub nlink: String,
    pub owner: String,
    pub group: String,
    pub size: String,
    pub time: String,
    pub name: String,
    pub suffix: String,
}

/// The larger of two widths.
pub open spec fn max_nat(a: nat, b: nat) -> nat {
    if a > b {
        a
    } else {
        b
    }
}

/// The largest value in a sequence of widths (zero when empty).
pub open spec fn seq_max(s: Seq<nat>) -> nat
    decreases s.len(),
{
    if s.len() == 0 {
        0
    } else {
        max_nat(seq_max(s.drop_last()), s.last())
    }
}

proof fn lemma_seq_max_push(s: Seq<nat>, x: nat)
    ensures
        seq_max(s.push(x)) == max_nat(seq_max(s), x),
{
    assert(s.push(x).drop_last() =~= s);
    assert(s.push(x).last() == x);
}

/// One long-format line assembled from its column texts: permissions,
/// owner and group are left-justified, link count and size right-justified,
/// each to the given width, with single spaces between columns and the
/// symlink annotation appended last.
pub open spec fn assemble_long_spec(
    perms: Seq<char>,
    nlink: Seq<char>,
    owner: Seq<char>,
    group: Seq<char>,
    size: Seq<char>,
    time: Seq<char>,
    name: Seq<char>,
    suffix: Seq<char>,
    wp: nat,
    wn: nat,
    wo: nat,
    wg: nat,
    ws: nat,
) -> Seq<char> {
    pad_right_spec(perms, wp) + " "@ + pad_left_spec(nlink, wn) + " "@ + pad_right_spec(owner, wo)
        + " "@ + pad_right_spec(group, wg) + " "@ + pad_left_spec(size, ws) + " "@ + time + " "@
        + name + suffix
}

/// The deterministic columns of an entry's long-format line; the timestamp
/// column is pinned only up to the machine's time zone.
pub open spec fn entry_fields_ok(f: LongFields, e: EntryInfo, flags: LsFlags, now: int) -> bool {
    &&& f.perms@ == perm_string_ext(e.kind, e.mode, e.has_xattr)
    &&& f.nlink@ == dec_seq(e.nlink as nat)
    &&& f.owner@ == e.owner@
    &&& f.group@ == e.group@
    &&& f.size@ == size_field_spec(e.kind, e.size, e.rdev)
    &&& (exists|p: TimeParts|
        time_parts_wf(p) && f.time@ == time_string(p, is_recent(e.mtime_secs as int, now)))
    &&& f.name@ == decorated_name_spec(
        e.name@,
        e.kind,
        e.mode,
        flags.file_indicators,
        flags.long_format,
    )
    &&& f.suffix@ == link_suffix_spec(e.link, flags.file_indicators)
}

/// The widths of the permission column over a batch of entries.
pub open spec fn perms_widths(es: Seq<EntryInfo>) -> Seq<nat> {
    es.map_values(|e: EntryInfo| perm_string_ext(e.kind, e.mode, e.has_xattr).len())
}

/// The widths of the link-count column over a batch of entries.
pub open spec fn nlink_widths(es: Seq<EntryInfo>) -> Seq<nat> {
    es.map_values(|e: EntryInfo| dec_seq(e.nlink as nat).len())
}

/// The widths of the owner column over a batch of entries.
pub open spec fn owner_widths(es: Seq<EntryInfo>) -> Seq<nat> {
    es.map_values(|e: EntryInfo| e.owner@.len())
}

/// The widths of the group column over a batch of entries.
pub open spec fn group_widths(es: Seq<EntryInfo>) -> Seq<nat> {
    es.map_values(|e: EntryInfo| e.group@.len())
}

/// The widths of the size column over a batch of entries.
pub open spec fn size_widths(es: Seq<EntryInfo>) -> Seq<nat> {
    es.map_values(|e: EntryInfo| size_field_spec(e.kind, e.size, e.rdev).len())
}

/// The long-format line of `e` within the batch `es`, whose column maxima
/// set the field widths, with timestamp text `time`.
pub open spec fn batch_long_line_spec(
    e: EntryInfo,
    flags: LsFlags,
    time: Seq<char>,
    es: Seq<EntryInfo>,
) -> Seq<char> {
    assemble_long_spec(
        perm_string_ext(e.kind, e.mode, e.has_xattr),
        dec_seq(e.nlink as nat),
        e.owner@,
        e.group@,
        size_field_spec(e.kind, e.size, e.rdev),
        time,
        decorated_name_spec(e.name@, e.kind, e.mode, flags.file_indicators, flags.long_format),
        link_suffix_spec(e.link, flags.file_indicators),
        seq_max(perms_widths(es)),
        seq_max(nlink_widths(es)),
        seq_max(owner_widths(es)),
        seq_max(group_widths(es)),
        seq_max(size_widths(es)),
    )
}

/// The long-format line of `e` listed on its own, where each width is the
/// field's own length with a floor of ten columns for permissions and one
/// for the rest, with timestamp text `time`.
pub open spec fn one_long_line_spec(e: EntryInfo, flags: LsFlags, time: Seq<char>) -> Seq<char> {
    assemble_long_spec(
        perm_string_ext(e.kind, e.mode, e.has_xattr),
        dec_seq(e.nlink as nat),
        e.owner@,
        e.group@,
        size_field_spec(e.kind, e.size, e.rdev),
        time,
        decorated_name_spec(e.name@, e.kind, e.mode, flags.file_indicators, flags.long_format),
        link_suffix_spec(e.link, flags.file_indicators),
        max_nat(perm_string_ext(e.kind, e.mode, e.has_xattr).len(), 10),
        max_nat(dec_seq(e.nlink as nat).len(), 1),
        max_nat(e.owner@.len(), 1),
        max_nat(e.group@.len(), 1),
        max_nat(size_field_spec(e.kind, e.size, e.rdev).len(), 1),
    )
}

/// Whether `line` is the long-format line of `e` within the batch `es`:
/// equal to `batch_long_line_spec` for some well-formed local calendar
/// rendering of `e`'s modification time.
pub open spec fn long_line_matches(
    line: Seq<char>,
    e: EntryInfo,
    flags: LsFlags,
    now: int,
    es: Seq<EntryInfo>,
) -> bool {
    exists|p: TimeParts|
        time_parts_wf(p) && line == batch_long_line_spec(
            e,
            flags,
            time_string(p, is_recent(e.mtime_secs as int, now)),
            es,
        )
}

/// The extended-attribute names that earn a listing its `+` suffix.
pub open spec fn is_ext_attr_spec(name: Seq<char>) -> bool {
    ||| is_prefix_of("system.posix_acl_"@, name)
    ||| is_prefix_of("security."@, name)
    ||| is_prefix_of("trusted."@, name)
    ||| is_prefix_of("user."@, name)
    ||| is_prefix_of("system."@, name)
    ||| is_prefix_of("xattr."@, name)
}

impl LsCommand {
    /// Unpack a raw device id into its major and minor numbers.
    pub fn major_minor(&self, rdev: u64) -> (r: (u32, u32))
        ensures
            r.0 as u64 == spec_major(rdev),
            r.1 as u64 == spec_minor(rdev),
    {
        proof {
            assert(((rdev >> 8) & 0xfff) <= 0xfff) by (bit_vector);
            assert(((rdev & 0xff) | ((rdev >> 12) & 0xfffff00)) <= 0xffffffff) by (bit_vector);
        }
        let major: u32 = ((rdev >> 8) & 0xfff) as u32;
        let minor: u32 = ((rdev & 0xff) | ((rdev >> 12) & 0xfffff00)) as u32;
        (major, minor)
    }

    /// Whether a mode has any execute bit set.
    pub fn is_executable(&self, mode: u32) -> (r: bool)
        ensures
            r == (mode & 0o111 != 0),
    {
        mode & 0o111 != 0
    }

    /// The ten-character permission string for a kind and mode.
    #[verifier::rlimit(60)]
    pub fn format_permissions(&self, kind: FileKind, mode: u32) -> (s: String)
        ensures
            s@ == perm_string(kind, mode),
    {
        let tc: char = match kind {
            FileKind::Regular => '-',
            FileKind::Directory => 'd',
            FileKind::Symlink => 'l',
            FileKind::CharDevice => 'c',
            FileKind::BlockDevice => 'b',
            FileKind::Fifo => 'p',
            FileKind::Socket => 's',
        };
        let ur: char = if mode & 0o400 != 0 { 'r' } else { '-' };
        let uw: char = if mode & 0o200 != 0 { 'w' } else { '-' };
        let ux: char = if mode & 0o4000 != 0 {
            if mode & 0o100 != 0 { 's' } else { 'S' }
        } else {
            if mode & 0o100 != 0 { 'x' } else { '-' }
        };
        let gr: char = if mode & 0o040 != 0 { 'r' } else { '-' };
        let gw: char = if mode & 0o020 != 0 { 'w' } else { '-' };
        let gx: char = if mode & 0o2000 != 0 {
            if mode & 0o010 != 0 { 's' } else { 'S' }
        } else {
            if mode & 0o010 != 0 { 'x' } else { '-' }
        };
        let or_: char = if mode & 0o004 != 0 { 'r' } else { '-' };
        let ow: char = if mode & 0o002 != 0 { 'w' } else { '-' };
        let ox: char = if mode & 0o1000 != 0 {
            if mode & 0o001 != 0 { 't' } else { 'T' }
        } else {
            if mode & 0o001 != 0 { 'x' } else { '-' }
        };
        let v: Vec<char> = vec![tc, ur, uw, ux, gr, gw, gx, or_, ow, ox];
        proof {
            assert(v@ =~= perm_string(kind, mode));
        }
        string_from_chars(&v)
    }

    /// The permission string with the `+` extended-attribute marker.
    pub fn format_permissions_with_extended(
        &self,
        kind: FileKind,
        mode: u32,
        has_xattr: bool,
    ) -> (s: String)
        ensures
            s@ == perm_string_ext(kind, mode, has_xattr),
    {
        let mut s = self.format_permissions(kind, mode);
        if has_xattr {
            s.append("+");
            proof {
                reveal_strlit("+");
                assert(s@ =~= perm_string_ext(kind, mode, has_xattr));
            }
        } else {
            proof {
                assert(s@ =~= perm_string_ext(kind, mode, has_xattr));
            }
        }
        s
    }

    /// Whether one extended-attribute name is of a namespace the listing
    /// reports with `+`.
    pub fn is_extended_attribute(&self, name: &str) -> (r: bool)
        ensures
            r == is_ext_attr_spec(name@),
    {
        str_has_prefix(name, "system.posix_acl_") || str_has_prefix(name, "security.")
            || str_has_prefix(name, "trusted.") || str_has_prefix(name, "user.")
            || str_has_prefix(name, "system.") || str_has_prefix(name, "xattr.")
    }

    /// Whether any of the attribute names found on a path is one the
    /// listing reports with `+`.
    pub fn any_extended_attribute(&self, names: &Vec<String>) -> (r: bool)
        ensures
            r == exists|i: int| 0 <= i < names@.len() && is_ext_attr_spec(names@[i]@),
    {
        let mut i: usize = 0;
        while i < names.len()
            invariant
                i <= names@.len(),
                forall|j: int| 0 <= j < i ==> !is_ext_attr_spec(names@[j]@),
            decreases names@.len() - i,
        {
            if self.is_extended_attribute(names[i].as_str()) {
                return true;
            }
            i = i + 1;
        }
        false
    }

    /// A display name with its `-F` indicator.
    pub fn decorated_name(&self, name: &str, kind: FileKind, mode: u32, flags: &LsFlags) -> (s:
        String)
        ensures
            s@ == decorated_name_spec(
                name@,
                kind,
                mode,
                flags.file_indicators,
                flags.long_format,
            ),
    {
        let mut s = String::new();
        s.append(name);
        if flags.file_indicators {
            match kind {
                FileKind::Directory => s.append("/"),
                FileKind::Symlink => {
                    if !flags.long_format {
                        s.append("@");
                    }
                },
                FileKind::Fifo => s.append("|"),
                FileKind::Socket => s.append("="),
                _ => {
                    if mode & 0o111 != 0 {
                        s.append("*");
                    }
                },
            }
        }
        proof {
            reveal_strlit("/");
            reveal_strlit("@");
            reveal_strlit("|");
            reveal_strlit("=");
            reveal_strlit("*");
            assert(s@ =~= decorated_name_spec(
                name@,
                kind,
                mode,
                flags.file_indicators,
                flags.long_format,
            ));
        }
        s
    }

    /// The ` -> target` annotation of a long-format line.
    pub fn link_suffix(&self, link: &LinkTarget, file_indicators: bool) -> (s: String)
        ensures
            s@ == link_suffix_spec(*link, file_indicators),
    {
        match link {
            LinkTarget::NotSymlink => {
                let s = String::new();
                proof {
                    assert(s@ =~= link_suffix_spec(*link, file_indicators));
                }
                s
            },
            LinkTarget::Broken => {
                let mut s = String::new();
                s.append(" -> (broken)");
                proof {
                    assert(s@ =~= link_suffix_spec(*link, file_indicators));
                }
                s
            },
            LinkTarget::Resolved { target, kind, mode } => {
                let mut s = String::new();
                s.append(" -> ");
                s.append(target.as_str());
                if file_indicators {
                    match kind {
                        Option::Some(FileKind::Socket) => s.append("="),
                        Option::Some(FileKind::Directory) => s.append("/"),
                        Option::Some(FileKind::Fifo) => s.append("|"),
                        Option::Some(_) => {
                            if *mode & 0o111 != 0 {
                                s.append("*");
                            }
                        },
                        Option::None => {},
                    }
                }
                proof {
                    reveal_strlit("/");
                    reveal_strlit("=");
                    reveal_strlit("|");
                    reveal_strlit("*");
                    assert(s@ =~= link_suffix_spec(*link, file_indicators));
                }
                s
            },
        }
    }

    /// The size column of one entry.
    pub fn size_field(&self, kind: FileKind, size: u64, rdev: u64) -> (s: String)
        ensures
            s@ == size_field_spec(kind, size, rdev),
    {
        if kind == FileKind::CharDevice || kind == FileKind::BlockDevice {
            let (major, minor) = self.major_minor(rdev);
            let maj_s = u64_to_string(major as u64);
            let min_s = u64_to_string(minor as u64);
            let mut s = pad_left(maj_s.as_str(), 3);
            s.append(", ");
            let padded_min = pad_left(min_s.as_str(), 5);
            s.append(padded_min.as_str());
            proof {
                assert(s@ =~= size_field_spec(kind, size, rdev));
            }
            s
        } else {
            let size_s = u64_to_string(size);
            let s = pad_left(size_s.as_str(), 8);
            proof {
                assert(s@ =~= size_field_spec(kind, size, rdev));
            }
            s
        }
    }

    /// The timestamp column: the entry's modification time in the local
    /// calendar, in clock form when recent and year form otherwise. The
    /// calendar fields come from the machine's time zone, so the contract
    /// promises a well-formed rendering of some such fields.
    pub fn format_time(&self, mtime_secs: i64, now_secs: i64) -> (r: String)
        ensures
            exists|p: TimeParts|
                time_parts_wf(p) && r@ == time_string(
                    p,
                    is_recent(mtime_secs as int, now_secs as int),
                ),
    {
        let recent: bool = (now_secs as i128) - (mtime_secs as i128) <= 15552000;
        let p = local_time_parts(mtime_secs);
        let r = render_time(&p, recent);
        proof {
            assert(time_parts_wf(p) && r@ == time_string(
                p,
                is_recent(mtime_secs as int, now_secs as int),
            ));
        }
        r
    }

    /// The column texts of one entry's long-format line.
    pub fn long_fields(&self, e: &EntryInfo, flags: &LsFlags, now_secs: i64) -> (f: LongFields)
        ensures
            entry_fields_ok(f, *e, *flags, now_secs as int),
    {
        let perms = self.format_permissions_with_extended(e.kind, e.mode, e.has_xattr);
        let nlink = u64_to_string(e.nlink);
        let owner = e.owner.clone();
        let group = e.group.clone();
        let size = self.size_field(e.kind, e.size, e.rdev);
        let time = self.format_time(e.mtime_secs, now_secs);
        let name = self.decorated_name(e.name.as_str(), e.kind, e.mode, flags);
        let suffix = self.link_suffix(&e.link, flags.file_indicators);
        LongFields { perms, nlink, owner, group, size, time, name, suffix }
    }

    /// One long-format line from its column texts and widths.
    pub fn assemble_long_line(
        &self,
        f: &LongFields,
        wp: usize,
        wn: usize,
        wo: usize,
        wg: usize,
        ws: usize,
    ) -> (s: String)
        ensures
            s@ == assemble_long_spec(
                f.perms@,
                f.nlink@,
                f.owner@,
                f.group@,
                f.size@,
                f.time@,
                f.name@,
                f.suffix@,
                wp as nat,
                wn as nat,
                wo as nat,
                wg as nat,
                ws as nat,
            ),
    {
        let mut s = pad_right(f.perms.as_str(), wp);
        s.append(" ");
        let t1 = pad_left(f.nlink.as_str(), wn);
        s.append(t1.as_str());
        s.append(" ");
        let t2 = pad_right(f.owner.as_str(), wo);
        s.append(t2.as_str());
        s.append(" ");
        let t3 = pad_right(f.group.as_str(), wg);
        s.append(t3.as_str());
        s.append(" ");
        let t4 = pad_left(f.size.as_str(), ws);
        s.append(t4.as_str());
        s.append(" ");
        s.append(f.time.as_str());
        s.append(" ");
        s.append(f.name.as_str());
        s.append(f.suffix.as_str());
        proof {
            assert(s@ =~= assemble_long_spec(
                f.perms@,
                f.nlink@,
                f.owner@,
                f.group@,
                f.size@,
                f.time@,
                f.name@,
                f.suffix@,
                wp as nat,
                wn as nat,
                wo as nat,
                wg as nat,
                ws as nat,
            ));
        }
        s
    }

    /// The long-format line of a single explicitly named entry, with the
    /// per-entry width floors (ten columns for permissions, one for the
    /// rest).
    pub fn format_one_long(&self, e: &EntryInfo, flags: &LsFlags, now_secs: i64) -> (s: String)
        ensures
            exists|p: TimeParts|
                time_parts_wf(p) && s@ == one_long_line_spec(
                    *e,
                    *flags,
                    time_string(p, is_recent(e.mtime_secs as int, now_secs as int)),
                ),
    {
        let f = self.long_fields(e, flags, now_secs);
        let wp = max_usize(f.perms.unicode_len(), 10);
        let wn = max_usize(f.nlink.unicode_len(), 1);
        let wo = max_usize(f.owner.unicode_len(), 1);
        let wg = max_usize(f.group.unicode_len(), 1);
        let ws = max_usize(f.size.unicode_len(), 1);
        let s = self.assemble_long_line(&f, wp, wn, wo, wg, ws);
        proof {
            let p = choose|p: TimeParts|
                time_parts_wf(p) && f.time@ == time_string(
                    p,
                    is_recent(e.mtime_secs as int, now_secs as int),
                );
            assert(time_parts_wf(p) && s@ == one_long_line_spec(
                *e,
                *flags,
                time_string(p, is_recent(e.mtime_secs as int, now_secs as int)),
            ));
        }
        s
    }

    /// The long-format lines of a batch of entries, in order, with every
    /// column padded to the batch-wide maximum width (the two-pass
    /// alignment): first every column text is computed, then the maxima,
    /// then each line is emitted.
    pub fn render_long_listing(&self, entries: &Vec<EntryInfo>, flags: &LsFlags, now_secs: i64) -> (
        res: Vec<String>)
        requires
            flags.long_format,
        ensures
            res@.len() == entries@.len(),
            forall|i: int|
                0 <= i < entries@.len() ==> long_line_matches(
                    #[trigger] res.deep_view()[i],
                    entries@[i],
                    *flags,
                    now_secs as int,
                    entries@,
                ),
    {
        let n = entries.len();
        let mut fs: Vec<LongFields> = Vec::new();
        let mut i: usize = 0;
        while i < n
            invariant
                i <= n,
                n == entries@.len(),
                fs@.len() == i,
                forall|j: int|
                    0 <= j < i ==> entry_fields_ok(
                        #[trigger] fs@[j],
                        entries@[j],
                        *flags,
                        now_secs as int,
                    ),
            decreases n - i,
        {
            let f = self.long_fields(&entries[i], flags, now_secs);
            fs.push(f);
            i = i + 1;
        }
        let mut wp: usize = 0;
        let mut wn: usize = 0;
        let mut wo: usize = 0;
        let mut wg: usize = 0;
        let mut ws: usize = 0;
        let mut j: usize = 0;
        while j < n
            invariant
                j <= n,
                n == entries@.len(),
                fs@.len() == n,
                forall|k: int|
                    0 <= k < n ==> entry_fields_ok(
                        #[trigger] fs@[k],
                        entries@[k],
                        *flags,
                        now_secs as int,
                    ),
                wp as nat == seq_max(perms_widths(entries@.subrange(0, j as int))),
                wn as nat == seq_max(nlink_widths(entries@.subrange(0, j as int))),
                wo as nat == seq_max(owner_widths(entries@.subrange(0, j as int))),
                wg as nat == seq_max(group_widths(entries@.subrange(0, j as int))),
                ws as nat == seq_max(size_widths(entries@.subrange(0, j as int))),
            decreases n - j,
        {
            let ghost pre = entries@.subrange(0, j as int);
            wp = max_usize(wp, fs[j].perms.unicode_len());
            wn = max_usize(wn, fs[j].nlink.unicode_len());
            wo = max_usize(wo, fs[j].owner.unicode_len());
            wg = max_usize(wg, fs[j].group.unicode_len());
            ws = max_usize(ws, fs[j].size.unicode_len());
            j = j + 1;
            proof {
                let post = entries@.subrange(0, j as int);
                assert(post =~= pre.push(entries@[j - 1]));
                assert(perms_widths(post) =~= perms_widths(pre).push(
                    perm_string_ext(
                        entries@[j - 1].kind,
                        entries@[j - 1].mode,
                        entries@[j - 1].has_xattr,
                    ).len(),
                ));
                assert(nlink_widths(post) =~= nlink_widths(pre).push(
                    dec_seq(entries@[j - 1].nlink as nat).len(),
                ));
                assert(owner_widths(post) =~= owner_widths(pre).push(
                    entries@[j - 1].owner@.len(),
                ));
                assert(group_widths(post) =~= group_widths(pre).push(
                    entries@[j - 1].group@.len(),
                ));
                assert(size_widths(post) =~= size_widths(pre).push(
                    size_field_spec(
                        entries@[j - 1].kind,
                        entries@[j - 1].size,
                        entries@[j - 1].rdev,
                    ).len(),
                ));
                lemma_seq_max_push(
                    perms_widths(pre),
                    perm_string_ext(
                        entries@[j - 1].kind,
                        entries@[j - 1].mode,
                        entries@[j - 1].has_xattr,
                    ).len(),
                );
                lemma_seq_max_push(nlink_widths(pre), dec_seq(entries@[j - 1].nlink as nat).len());
                lemma_seq_max_push(owner_widths(pre), entries@[j - 1].owner@.len());
                lemma_seq_max_push(group_widths(pre), entries@[j - 1].group@.len());
                lemma_seq_max_push(
                    size_widths(pre),
                    size_field_spec(
                        entries@[j - 1].kind,
                        entries@[j - 1].size,
                        entries@[j - 1].rdev,
                    ).len(),
                );
            }
        }
        proof {
            assert(entries@.subrange(0, n as int) =~= entries@);
        }
        let mut res: Vec<String> = Vec::new();
        let mut k: usize = 0;
        while k < n
            invariant
                k <= n,
                n == entries@.len(),
                fs@.len() == n,
                forall|m: int|
                    0 <= m < n ==> entry_fields_ok(
                        #[trigger] fs@[m],
                        entries@[m],
                        *flags,
                        now_secs as int,
                    ),
                wp as nat == seq_max(perms_widths(entries@)),
                wn as nat == seq_max(nlink_widths(entries@)),
                wo as nat == seq_max(owner_widths(entries@)),
                wg as nat == seq_max(group_widths(entries@)),
                ws as nat == seq_max(size_widths(entries@)),
                res@.len() == k,
                forall|m: int|
                    0 <= m < k ==> long_line_matches(
                        #[trigger] res.deep_view()[m],
                        entries@[m],
                        *flags,
                        now_secs as int,
                        entries@,
                    ),
            decreases n - k,
        {
            let line = self.assemble_long_line(&fs[k], wp, wn, wo, wg, ws);
            let ghost old_dv = res.deep_view();
            let ghost linev = line@;
            res.push(line);
            k = k + 1;
            proof {
                assert(res.deep_view() =~= old_dv.push(linev));
                let p = choose|p: TimeParts|
                    time_parts_wf(p) && fs@[k - 1].time@ == time_string(
                        p,
                        is_recent(entries@[k - 1].mtime_secs as int, now_secs as int),
                    );
                assert(time_parts_wf(p) && res.deep_view()[k - 1] == batch_long_line_spec(
                    entries@[k - 1],
                    *flags,
                    time_string(p, is_recent(entries@[k - 1].mtime_secs as int, now_secs as int)),
                    entries@,
                ));
                assert(long_line_matches(
                    res.deep_view()[k - 1],
                    entries@[k - 1],
                    *flags,
                    now_secs as int,
                    entries@,
                ));
            }
        }
        res
    }
}

/// The short-format text of a batch of entries: each decorated name
/// followed by two spaces, in order.
pub open spec fn short_listing_spec(es: Seq<EntryInfo>, file_indicators: bool) -> Seq<char>
    decreases es.len(),
{
    if es.len() == 0 {
        Seq::empty()
    } else {
        short_listing_spec(es.drop_last(), file_indicators) + decorated_name_spec(
            es.last().name@,
            es.last().kind,
            es.last().mode,
            file_indicators,
            false,
        ) + "  "@
    }
}

/// Addition on block counts that sticks at the largest 64-bit value.
pub open spec fn sat_add_u64(a: int, b: int) -> int {
    if a + b > 0xffff_ffff_ffff_ffff {
        0xffff_ffff_ffff_ffff
    } else {
        a + b
    }
}

/// The saturating sum of a sequence of block counts.
pub open spec fn sat_sum(s: Seq<u64>) -> int
    decreases s.len(),
{
    if s.len() == 0 {
        0
    } else {
        sat_add_u64(sat_sum(s.drop_last()), s.last() as int)
    }
}

/// The `total` header value: the summed 512-byte block counts rounded up
/// to whole kibibytes.
pub open spec fn total_kb(s: Seq<u64>) -> int {
    sat_sum(s) / 2 + sat_sum(s) % 2
}

/// A character that survives the collation key: an ASCII letter or digit.
pub open spec fn is_ascii_alnum(c: char) -> bool {
    (48 <= c as int <= 57) || (65 <= c as int <= 90) || (97 <= c as int <= 122)
}

/// An ASCII upper-case letter folded to lower case; other characters are
/// unchanged.
pub open spec fn to_lower_char(c: char) -> char {
    if 65 <= c as int <= 90 {
        (((c as u32) + 32) as u8) as char
    } else {
        c
    }
}

/// The collation key of a name: its ASCII letters and digits, lower-cased,
/// everything else stripped — a deliberately naive folding, not locale
/// collation.
pub open spec fn sort_key_spec(s: Seq<char>) -> Seq<char>
    decreases s.len(),
{
    if s.len() == 0 {
        Seq::empty()
    } else {
        sort_key_spec(s.drop_last()) + (if is_ascii_alnum(s.last()) {
            seq![to_lower_char(s.last())]
        } else {
            Seq::<char>::empty()
        })
    }
}

/// Lexicographic order on character sequences, by code point; the empty
/// sequence comes first.
pub open spec fn lex_le(a: Seq<char>, b: Seq<char>) -> bool
    decreases a.len(),
{
    if a.len() == 0 {
        true
    } else if b.len() == 0 {
        false
    } else if (a[0] as int) < (b[0] as int) {
        true
    } else if (a[0] as int) > (b[0] as int) {
        false
    } else {
        lex_le(a.drop_first(), b.drop_first())
    }
}

/// The key a directory listing is ordered by.
pub open spec fn entry_key(e: EntryInfo) -> Seq<char> {
    sort_key_spec(e.name@)
}

/// The first `m` entries are in collation-key order.
pub open spec fn sorted_prefix(es: Seq<EntryInfo>, m: int) -> bool {
    forall|p: int, q: int|
        0 <= p < q < m ==> lex_le(entry_key(#[trigger] es[p]), entry_key(#[trigger] es[q]))
}

/// The whole batch is in collation-key order.
pub open spec fn entries_sorted(es: Seq<EntryInfo>) -> bool {
    sorted_prefix(es, es.len() as int)
}

/// Any two keys are ordered one way or the other.
pub proof fn lemma_lex_le_total(a: Seq<char>, b: Seq<char>)
    ensures
        lex_le(a, b) || lex_le(b, a),
    decreases a.len(),
{
    if a.len() == 0 {
    } else if b.len() == 0 {
    } else {
        lemma_lex_le_total(a.drop_first(), b.drop_first());
    }
}

/// The key order is transitive.
pub proof fn lemma_lex_le_trans(a: Seq<char>, b: Seq<char>, c: Seq<char>)
    requires
        lex_le(a, b),
        lex_le(b, c),
    ensures
        lex_le(a, c),
    decreases a.len(),
{
    if a.len() == 0 {
    } else {
        if (a[0] as int) < (b[0] as int) {
        } else {
            if (b[0] as int) < (c[0] as int) {
            } else {
                lemma_lex_le_trans(a.drop_first(), b.drop_first(), c.drop_first());
            }
        }
    }
}

proof fn lemma_insert_to_multiset(s: Seq<EntryInfo>, j: int, x: EntryInfo)
    requires
        0 <= j <= s.len(),
    ensures
        s.insert(j, x).to_multiset() =~= s.to_multiset().insert(x),
{
    let s2 = s.insert(j, x);
    s2.to_multiset_ensures();
    assert(s2.remove(j) =~= s);
    assert(s2[j] == x);
    assert(s2.remove(j).to_multiset() =~= s2.to_multiset().remove(s2[j]));
    assert(s2.contains(x)) by {
        assert(s2[j] == x);
    }
    assert(s2.to_multiset().count(x) > 0);
    assert(s2.to_multiset() =~= s2.to_multiset().remove(x).insert(x));
}

impl LsCommand {
    /// The short-format text of a batch: every decorated name, each
    /// followed by two spaces (the caller ends the line).
    pub fn render_short_listing(&self, entries: &Vec<EntryInfo>, flags: &LsFlags) -> (s: String)
        requires
            !flags.long_format,
        ensures
            s@ == short_listing_spec(entries@, flags.file_indicators),
    {
        let mut s = String::new();
        let mut i: usize = 0;
        while i < entries.len()
            invariant
                i <= entries@.len(),
                !flags.long_format,
                s@ == short_listing_spec(entries@.subrange(0, i as int), flags.file_indicators),
            decreases entries@.len() - i,
        {
            let d = self.decorated_name(entries[i].name.as_str(), entries[i].kind, entries[i].mode, flags);
            s.append(d.as_str());
            s.append("  ");
            i = i + 1;
            proof {
                let pre = entries@.subrange(0, i - 1);
                let post = entries@.subrange(0, i as int);
                assert(post.drop_last() =~= pre);
                assert(post.last() == entries@[i - 1]);
                assert(s@ =~= short_listing_spec(post, flags.file_indicators));
            }
        }
        proof {
            assert(entries@.subrange(0, entries@.len() as int) =~= entries@);
        }
        s
    }

    /// The `total {kb}` header of a long-format directory listing, from
    /// the entries' 512-byte block counts.
    pub fn total_line(&self, blocks: &Vec<u64>) -> (r: String)
        ensures
            r@ == "total "@ + dec_seq(total_kb(blocks@) as nat),
    {
        let mut total: u64 = 0;
        let mut i: usize = 0;
        while i < blocks.len()
            invariant
                i <= blocks@.len(),
                total as int == sat_sum(blocks@.subrange(0, i as int)),
            decreases blocks@.len() - i,
        {
            let b = blocks[i];
            if total > u64::MAX - b {
                total = u64::MAX;
            } else {
                total = total + b;
            }
            i = i + 1;
            proof {
                let pre = blocks@.subrange(0, i - 1);
                let post = blocks@.subrange(0, i as int);
                assert(post.drop_last() =~= pre);
                assert(post.last() == blocks@[i - 1]);
            }
        }
        proof {
            assert(blocks@.subrange(0, blocks@.len() as int) =~= blocks@);
        }
        let kb = total / 2 + total % 2;
        let num = u64_to_string(kb);
        let mut r = String::new();
        r.append("total ");
        r.append(num.as_str());
        proof {
            assert(r@ =~= "total "@ + dec_seq(total_kb(blocks@) as nat));
        }
        r
    }

    /// The line reported for a path that does not exist.
    pub fn missing_line(&self, path: &str) -> (r: String)
        ensures
            r@ == "ls: "@ + path@ + ": No such file or directory"@,
    {
        let mut r = String::new();
        r.append("ls: ");
        r.append(path);
        r.append(": No such file or directory");
        proof {
            assert(r@ =~= "ls: "@ + path@ + ": No such file or directory"@);
        }
        r
    }

    /// The collation key of one name.
    pub fn sort_key(&self, name: &str) -> (v: Vec<char>)
        ensures
            v@ == sort_key_spec(name@),
    {
        let cs = chars_of_str(name);
        let mut v: Vec<char> = Vec::new();
        let mut i: usize = 0;
        while i < cs.len()
            invariant
                i <= cs@.len(),
                cs@ == name@,
                v@ == sort_key_spec(name@.subrange(0, i as int)),
            decreases cs@.len() - i,
        {
            let c = cs[i];
            if (c >= '0' && c <= '9') || (c >= 'A' && c <= 'Z') || (c >= 'a' && c <= 'z') {
                let lc: char = if c >= 'A' && c <= 'Z' {
                    ((c as u32 + 32) as u8) as char
                } else {
                    c
                };
                proof {
                    assert(is_ascii_alnum(c));
                    assert(lc == to_lower_char(c));
                }
                v.push(lc);
            } else {
                proof {
                    assert(!is_ascii_alnum(c));
                }
            }
            i = i + 1;
            proof {
                let pre = name@.subrange(0, i - 1);
                let post = name@.subrange(0, i as int);
                assert(post.drop_last() =~= pre);
                assert(post.last() == name@[i - 1]);
                assert(v@ =~= sort_key_spec(post));
            }
        }
        proof {
            assert(name@.subrange(0, name@.len() as int) =~= name@);
        }
        v
    }

    /// Whether key `a` sorts at or before key `b`.
    pub fn key_le(&self, a: &Vec<char>, b: &Vec<char>) -> (r: bool)
        ensures
            r == lex_le(a@, b@),
    {
        proof {
            assert(a@.skip(0) =~= a@);
            assert(b@.skip(0) =~= b@);
        }
        let mut i: usize = 0;
        while i < a.len() && i < b.len()
            invariant
                i <= a@.len(),
                i <= b@.len(),
                lex_le(a@, b@) == lex_le(a@.skip(i as int), b@.skip(i as int)),
            decreases a@.len() - i,
        {
            let ca = a[i];
            let cb = b[i];
            proof {
                assert(a@.skip(i as int)[0] == a@[i as int]);
                assert(b@.skip(i as int)[0] == b@[i as int]);
                assert(a@.skip(i as int).drop_first() =~= a@.skip(i + 1));
                assert(b@.skip(i as int).drop_first() =~= b@.skip(i + 1));
            }
            if ca < cb {
                return true;
            }
            if ca > cb {
                return false;
            }
            i = i + 1;
        }
        proof {
            if i >= a@.len() {
                assert(a@.skip(i as int).len() == 0);
            } else {
                assert(b@.skip(i as int).len() == 0);
                assert(a@.skip(i as int).len() > 0);
            }
        }
        i >= a.len()
    }

    /// Sort a batch of entries by collation key: afterwards the entries
    /// stand in key order and are, as a multiset, the same entries.
    pub fn sort_entries(&self, entries: &mut Vec<EntryInfo>)
        ensures
            entries_sorted(final(entries)@),
            final(entries)@.to_multiset() == old(entries)@.to_multiset(),
            final(entries)@.len() == old(entries)@.len(),
    {
        if entries.len() <= 1 {
            return ;
        }
        let mut i: usize = 1;
        while i < entries.len()
            invariant
                1 <= i <= entries@.len(),
                entries@.len() == old(entries)@.len(),
                sorted_prefix(entries@, i as int),
                entries@.to_multiset() == old(entries)@.to_multiset(),
            decreases entries@.len() - i,
        {
            let ghost v0 = entries@;
            let x = entries.remove(i);
            let ghost v1 = entries@;
            proof {
                v0.to_multiset_ensures();
                assert(v1 == v0.remove(i as int));
                assert(v0.remove(i as int).to_multiset() =~= v0.to_multiset().remove(
                    v0[i as int],
                ));
                assert(v1.to_multiset() =~= v0.to_multiset().remove(x));
                assert(v0.contains(x)) by {
                    assert(v0[i as int] == x);
                }
                assert(v0.to_multiset().count(x) > 0);
                assert(forall|m: int| 0 <= m < i ==> v1[m] == v0[m]);
                assert(sorted_prefix(v1, i as int));
            }
            let kx = self.sort_key(x.name.as_str());
            let mut j: usize = i;
            while j > 0
                invariant_except_break
                    j <= i,
                    i < v0.len(),
                    entries@ == v1,
                    v1.len() + 1 == v0.len(),
                    kx@ == entry_key(x),
                    sorted_prefix(v1, i as int),
                    forall|k: int| j <= k < i ==> lex_le(kx@, entry_key(#[trigger] v1[k])),
                ensures
                    j <= i,
                    entries@ == v1,
                    forall|k: int| j <= k < i ==> lex_le(kx@, entry_key(#[trigger] v1[k])),
                    j == 0 || lex_le(entry_key(v1[j - 1]), kx@),
                decreases j,
            {
                let kj = self.sort_key(entries[j - 1].name.as_str());
                if self.key_le(&kj, &kx) {
                    break ;
                }
                proof {
                    lemma_lex_le_total(entry_key(v1[j - 1]), kx@);
                }
                j = j - 1;
            }
            entries.insert(j, x);
            proof {
                lemma_insert_to_multiset(v1, j as int, x);
                v0.to_multiset_ensures();
                assert(v0.contains(x)) by {
                    assert(v0[i as int] == x);
                }
                assert(entries@.to_multiset() =~= v0.to_multiset()) by {
                    assert(entries@.to_multiset() =~= v1.to_multiset().insert(x));
                    assert(v0.to_multiset().count(x) > 0);
                    assert(v0.to_multiset().remove(x).insert(x) =~= v0.to_multiset());
                }
                assert(forall|m: int| 0 <= m < j ==> entries@[m] == v1[m]);
                assert(entries@[j as int] == x);
                assert(forall|m: int| j < m <= v1.len() ==> entries@[m] == v1[m - 1]);
                assert forall|p: int, q: int| 0 <= p < q < i + 1 implies lex_le(
                    entry_key(entries@[p]),
                    entry_key(entries@[q]),
                ) by {
                    if q < j {
                        assert(lex_le(entry_key(v1[p]), entry_key(v1[q])));
                    } else if q == j {
                        assert(p < j);
                        assert(lex_le(entry_key(v1[j - 1]), kx@));
                        if p < j - 1 {
                            assert(lex_le(entry_key(v1[p]), entry_key(v1[j - 1])));
                            lemma_lex_le_trans(entry_key(v1[p]), entry_key(v1[j - 1]), kx@);
                        }
                    } else if p == j {
                        assert(j <= q - 1 < i);
                        assert(lex_le(kx@, entry_key(v1[q - 1])));
                    } else if p < j {
                        assert(p < q - 1);
                        assert(lex_le(entry_key(v1[p]), entry_key(v1[q - 1])));
                    } else {
                        assert(lex_le(entry_key(v1[p - 1]), entry_key(v1[q - 1])));
                    }
                }
                assert(sorted_prefix(entries@, i + 1));
            }
            i = i + 1;
        }
    }

    /// Drop dot-files from a list of names unless hidden entries are shown.
    pub fn filter_hidden(&self, names: &Vec<String>, show_hidden: bool) -> (r: Vec<String>)
        ensures
            r.deep_view() == filter_names_spec(names.deep_view(), show_hidden),
    {
        let ghost dv = names.deep_view();
        let mut r: Vec<String> = Vec::new();
        let mut i: usize = 0;
        while i < names.len()
            invariant
                i <= names@.len(),
                dv == names.deep_view(),
                dv.len() == names@.len(),
                forall|k: int| 0 <= k < names@.len() ==> dv[k] == #[trigger] names@[k]@,
                r.deep_view() == filter_names_spec(dv.subrange(0, i as int), show_hidden),
            decreases names@.len() - i,
        {
            let name = &names[i];
            let keep = if show_hidden {
                true
            } else {
                let n = name.as_str().unicode_len();
                if n == 0 {
                    true
                } else {
                    name.as_str().get_char(0) != '.'
                }
            };
            let ghost rdv = r.deep_view();
            if keep {
                r.push(name.clone());
                proof {
                    assert(r.deep_view() =~= rdv.push(dv[i as int]));
                }
            }
            i = i + 1;
            proof {
                let pre = dv.subrange(0, i - 1);
                let post = dv.subrange(0, i as int);
                assert(post.drop_last() =~= pre);
                assert(post.last() == dv[i - 1]);
                assert(keep == keep_name(dv[i - 1], show_hidden));
                assert(r.deep_view() =~= filter_names_spec(post, show_hidden));
            }
        }
        proof {
            assert(dv.subrange(0, dv.len() as int) =~= dv);
        }
        r
    }
}

/// Whether a name survives dot-file filtering.
pub open spec fn keep_name(name: Seq<char>, show_hidden: bool) -> bool {
    show_hidden || name.len() == 0 || name[0] != '.'
}

/// The names that survive dot-file filtering, in order.
pub open spec fn filter_names_spec(names: Seq<Seq<char>>, show_hidden: bool) -> Seq<Seq<char>>
    decreases names.len(),
{
    if names.len() == 0 {
        Seq::empty()
    } else {
        filter_names_spec(names.drop_last(), show_hidden) + (if keep_name(
            names.last(),
            show_hidden,
        ) {
            seq![names.last()]
        } else {
            Seq::<Seq<char>>::empty()
        })
    }
}

/// What a path argument turned out to be on disk: a regular file, a
/// directory, something else that exists (a device, a FIFO), or nothing.
#[derive(Debug, Clone, Copy, PartialEq, Eq, Structural)]
pub enum PathClass {
    File,
    Dir,
    OtherExisting,
    Missing,
}

/// The running state of `ls` argument scanning.
pub struct LsScanState {
    pub show_hidden: bool,
    pub long_format: bool,
    pub file_indicators: bool,
    pub is_option: bool,
    pub paths: Seq<Seq<char>>,
}

/// The scan state before any argument is read.
pub open spec fn ls_scan_init() -> LsScanState {
    LsScanState {
        show_hidden: false,
        long_format: false,
        file_indicators: false,
        is_option: true,
        paths: Seq::empty(),
    }
}

/// Scanning the option characters of one `-...` argument from position
/// `j`: `a`, `l` and `F` set their flag, anything else is the invalid
/// option character reported.
pub open spec fn scan_opt_chars(s: Seq<char>, j: int, sh: bool, lf: bool, fi: bool) -> Result<
    (bool, bool, bool),
    char,
>
    decreases s.len() - j,
{
    if j < 0 || j >= s.len() {
        Result::Ok((sh, lf, fi))
    } else if s[j] == 'a' {
        scan_opt_chars(s, j + 1, true, lf, fi)
    } else if s[j] == 'l' {
        scan_opt_chars(s, j + 1, sh, true, fi)
    } else if s[j] == 'F' {
        scan_opt_chars(s, j + 1, sh, lf, true)
    } else {
        Result::Err(s[j])
    }
}

/// Scanning the argument list of `ls` from position `k`: while options are
/// live, a lone `-` is a path, `--` ends option scanning, and any other
/// `-...` argument is a run of option characters; everything else is a
/// path. The error is the first invalid option character.
pub open spec fn ls_scan(args: Seq<Seq<char>>, k: int, st: LsScanState) -> Result<
    LsScanState,
    char,
>
    decreases args.len() - k,
{
    if k < 0 || k >= args.len() {
        Result::Ok(st)
    } else {
        let a = args[k];
        if a.len() > 0 && a[0] == '-' && st.is_option {
            if a == seq!['-'] {
                ls_scan(
                    args,
                    k + 1,
                    LsScanState {
                        show_hidden: st.show_hidden,
                        long_format: st.long_format,
                        file_indicators: st.file_indicators,
                        is_option: st.is_option,
                        paths: st.paths.push(a),
                    },
                )
            } else if a == seq!['-', '-'] {
                ls_scan(
                    args,
                    k + 1,
                    LsScanState {
                        show_hidden: st.show_hidden,
                        long_format: st.long_format,
                        file_indicators: st.file_indicators,
                        is_option: false,
                        paths: st.paths,
                    },
                )
            } else {
                match scan_opt_chars(a, 1, st.show_hidden, st.long_format, st.file_indicators) {
                    Result::Ok(f) => ls_scan(
                        args,
                        k + 1,
                        LsScanState {
                            show_hidden: f.0,
                            long_format: f.1,
                            file_indicators: f.2,
                            is_option: st.is_option,
                            paths: st.paths,
                        },
                    ),
                    Result::Err(c) => Result::Err(c),
                }
            }
        } else {
            ls_scan(
                args,
                k + 1,
                LsScanState {
                    show_hidden: st.show_hidden,
                    long_format: st.long_format,
                    file_indicators: st.file_indicators,
                    is_option: st.is_option,
                    paths: st.paths.push(a),
                },
            )
        }
    }
}

/// The paths classed as plain files (including existing special files).
pub open spec fn files_of(paths: Seq<Seq<char>>, classes: Seq<PathClass>) -> Seq<Seq<char>>
    decreases paths.len(),
{
    if paths.len() == 0 {
        Seq::empty()
    } else {
        files_of(paths.drop_last(), classes.drop_last()) + (if classes.last() == PathClass::File
            || classes.last() == PathClass::OtherExisting {
            seq![paths.last()]
        } else {
            Seq::<Seq<char>>::empty()
        })
    }
}

/// The paths classed as directories.
pub open spec fn dirs_of(paths: Seq<Seq<char>>, classes: Seq<PathClass>) -> Seq<Seq<char>>
    decreases paths.len(),
{
    if paths.len() == 0 {
        Seq::empty()
    } else {
        dirs_of(paths.drop_last(), classes.drop_last()) + (if classes.last() == PathClass::Dir {
            seq![paths.last()]
        } else {
            Seq::<Seq<char>>::empty()
        })
    }
}

/// The paths that do not exist.
pub open spec fn missing_of(paths: Seq<Seq<char>>, classes: Seq<PathClass>) -> Seq<Seq<char>>
    decreases paths.len(),
{
    if paths.len() == 0 {
        Seq::empty()
    } else {
        missing_of(paths.drop_last(), classes.drop_last()) + (if classes.last()
            == PathClass::Missing {
            seq![paths.last()]
        } else {
            Seq::<Seq<char>>::empty()
        })
    }
}

impl LsCommand {
    /// Scan the arguments of `ls` into its flags and path operands.
    /// `-a`, `-l` and `-F` (also combined, as in `-la`) set the flags; a
    /// lone `-` is a path; `--` ends option scanning; any other option
    /// character is rejected with the exact complaint `ls` prints.
    pub fn parse_args(&self, args: &Vec<String>) -> (r: Result<(LsFlags, Vec<String>), ShellError>)
        ensures
            ({
                let out = ls_scan(args.deep_view(), 0, ls_scan_init());
                match out {
                    Result::Ok(st) => {
                        &&& r matches Ok((flags, paths))
                        &&& flags.show_hidden == st.show_hidden
                        &&& flags.long_format == st.long_format
                        &&& flags.file_indicators == st.file_indicators
                        &&& paths.deep_view() == st.paths
                    },
                    Result::Err(c) => r matches Err(ShellError::ExecutionError(m)) && m@
                        == "ls: invalid option -- '"@ + seq![c] + "'"@,
                }
            }),
    {
        let ghost dv = args.deep_view();
        let ghost target = ls_scan(dv, 0, ls_scan_init());
        let mut sh = false;
        let mut lf = false;
        let mut fi = false;
        let mut is_option = true;
        let mut paths: Vec<String> = Vec::new();
        let mut k: usize = 0;
        proof {
            assert(paths.deep_view() =~= Seq::<Seq<char>>::empty());
        }
        while k < args.len()
            invariant
                k <= args@.len(),
                dv == args.deep_view(),
                dv.len() == args@.len(),
                forall|m: int| 0 <= m < args@.len() ==> dv[m] == #[trigger] args@[m]@,
                target == ls_scan(dv, 0, ls_scan_init()),
                ls_scan(
                    dv,
                    k as int,
                    LsScanState {
                        show_hidden: sh,
                        long_format: lf,
                        file_indicators: fi,
                        is_option,
                        paths: paths.deep_view(),
                    },
                ) == target,
            decreases args@.len() - k,
        {
            let ghost st0 = LsScanState {
                show_hidden: sh,
                long_format: lf,
                file_indicators: fi,
                is_option,
                paths: paths.deep_view(),
            };
            let n = args[k].as_str().unicode_len();
            let starts_dash = n > 0 && args[k].as_str().get_char(0) == '-';
            if starts_dash && is_option {
                if str_eq(args[k].as_str(), "-") {
                    proof {
                        reveal_strlit("-");
                        assert("-"@ =~= seq!['-']);
                    }
                    let ghost pdv = paths.deep_view();
                    paths.push(args[k].clone());
                    proof {
                        assert(paths.deep_view() =~= pdv.push(dv[k as int]));
                    }
                    k = k + 1;
                } else if str_eq(args[k].as_str(), "--") {
                    proof {
                        reveal_strlit("-");
                        reveal_strlit("--");
                        assert("--"@ =~= seq!['-', '-']);
                        assert(dv[k as int] != seq!['-']);
                    }
                    is_option = false;
                    k = k + 1;
                } else {
                    proof {
                        reveal_strlit("-");
                        reveal_strlit("--");
                        assert("-"@ =~= seq!['-']);
                        assert("--"@ =~= seq!['-', '-']);
                    }
                    let cs = chars_of_str(args[k].as_str());
                    let ghost sh1 = sh;
                    let ghost lf1 = lf;
                    let ghost fi1 = fi;
                    let mut j: usize = 1;
                    while j < cs.len()
                        invariant
                            1 <= j <= cs@.len(),
                            cs@ == dv[k as int],
                            k < dv.len(),
                            dv == args.deep_view(),
                            target == ls_scan(dv, 0, ls_scan_init()),
                            ls_scan(dv, k as int, st0) == target,
                            st0 == (LsScanState {
                                show_hidden: sh1,
                                long_format: lf1,
                                file_indicators: fi1,
                                is_option,
                                paths: paths.deep_view(),
                            }),
                            scan_opt_chars(cs@, j as int, sh, lf, fi) == scan_opt_chars(
                                cs@,
                                1,
                                sh1,
                                lf1,
                                fi1,
                            ),
                            dv[k as int].len() > 0 && dv[k as int][0] == '-' && is_option,
                            dv[k as int] != seq!['-'],
                            dv[k as int] != seq!['-', '-'],
                        decreases cs@.len() - j,
                    {
                        let c = cs[j];
                        if c == 'a' {
                            sh = true;
                        } else if c == 'l' {
                            lf = true;
                        } else if c == 'F' {
                            fi = true;
                        } else {
                            proof {
                                assert(scan_opt_chars(cs@, j as int, sh, lf, fi)
                                    == Result::<(bool, bool, bool), char>::Err(c));
                                assert(target == Result::<LsScanState, char>::Err(c));
                            }
                            let mut m = String::new();
                            m.append("ls: invalid option -- '");
                            let cv: Vec<char> = vec![c];
                            let cstr = string_from_chars(&cv);
                            m.append(cstr.as_str());
                            m.append("'");
                            proof {
                                assert(m@ =~= "ls: invalid option -- '"@ + seq![c] + "'"@);
                            }
                            return Err(ShellError::ExecutionError(m));
                        }
                        j = j + 1;
                    }
                    proof {
                        assert(scan_opt_chars(cs@, j as int, sh, lf, fi) == Result::<
                            (bool, bool, bool),
                            char,
                        >::Ok((sh, lf, fi)));
                    }
                    k = k + 1;
                }
            } else {
                let ghost pdv = paths.deep_view();
                paths.push(args[k].clone());
                proof {
                    assert(paths.deep_view() =~= pdv.push(dv[k as int]));
                }
                k = k + 1;
            }
            proof {
                assert(ls_scan(
                    dv,
                    k as int,
                    LsScanState {
                        show_hidden: sh,
                        long_format: lf,
                        file_indicators: fi,
                        is_option,
                        paths: paths.deep_view(),
                    },
                ) == ls_scan(dv, k - 1, st0));
            }
        }
        let flags = LsFlags { show_hidden: sh, long_format: lf, file_indicators: fi };
        Ok((flags, paths))
    }

    /// The path list actually listed: the current directory when no path
    /// was given, else the paths as they came.
    pub fn effective_paths(&self, paths: Vec<String>) -> (r: Vec<String>)
        ensures
            paths@.len() == 0 ==> r.deep_view() =~= seq!["."@],
            paths@.len() > 0 ==> r == paths,
    {
        if paths.is_empty() {
            let mut r = paths;
            r.push(String::from_str("."));
            proof {
                assert(r.deep_view() =~= seq!["."@]);
            }
            r
        } else {
            paths
        }
    }

    /// Split classified paths into plain files (special files included),
    /// directories, and missing paths, keeping their order.
    pub fn split_paths(&self, paths: &Vec<String>, classes: &Vec<PathClass>) -> (r: (
        Vec<String>,
        Vec<String>,
        Vec<String>,
    ))
        requires
            paths@.len() == classes@.len(),
        ensures
            r.0.deep_view() == files_of(paths.deep_view(), classes@),
            r.1.deep_view() == dirs_of(paths.deep_view(), classes@),
            r.2.deep_view() == missing_of(paths.deep_view(), classes@),
    {
        let ghost dv = paths.deep_view();
        let mut files: Vec<String> = Vec::new();
        let mut dirs: Vec<String> = Vec::new();
        let mut missing: Vec<String> = Vec::new();
        let mut i: usize = 0;
        proof {
            assert(files.deep_view() =~= Seq::<Seq<char>>::empty());
        }
        while i < paths.len()
            invariant
                i <= paths@.len(),
                paths@.len() == classes@.len(),
                dv == paths.deep_view(),
                dv.len() == paths@.len(),
                forall|m: int| 0 <= m < paths@.len() ==> dv[m] == #[trigger] paths@[m]@,
                files.deep_view() == files_of(
                    dv.subrange(0, i as int),
                    classes@.subrange(0, i as int),
                ),
                dirs.deep_view() == dirs_of(
                    dv.subrange(0, i as int),
                    classes@.subrange(0, i as int),
                ),
                missing.deep_view() == missing_of(
                    dv.subrange(0, i as int),
                    classes@.subrange(0, i as int),
                ),
            decreases paths@.len() - i,
        {
            let c = classes[i];
            let ghost fdv = files.deep_view();
            let ghost ddv = dirs.deep_view();
            let ghost mdv = missing.deep_view();
            match c {
                PathClass::File | PathClass::OtherExisting => {
                    files.push(paths[i].clone());
                    proof {
                        assert(files.deep_view() =~= fdv.push(dv[i as int]));
                    }
                },
                PathClass::Dir => {
                    dirs.push(paths[i].clone());
                    proof {
                        assert(dirs.deep_view() =~= ddv.push(dv[i as int]));
                    }
                },
                PathClass::Missing => {
                    missing.push(paths[i].clone());
                    proof {
                        assert(missing.deep_view() =~= mdv.push(dv[i as int]));
                    }
                },
            }
            i = i + 1;
            proof {
                let pp = dv.subrange(0, i - 1);
                let cp = classes@.subrange(0, i - 1);
                let pq = dv.subrange(0, i as int);
                let cq = classes@.subrange(0, i as int);
                assert(pq.drop_last() =~= pp);
                assert(cq.drop_last() =~= cp);
                assert(pq.last() == dv[i - 1]);
                assert(cq.last() == classes@[i - 1]);
                assert(files.deep_view() =~= files_of(pq, cq));
                assert(dirs.deep_view() =~= dirs_of(pq, cq));
                assert(missing.deep_view() =~= missing_of(pq, cq));
            }
        }
        proof {
            assert(dv.subrange(0, dv.len() as int) =~= dv);
            assert(classes@.subrange(0, classes@.len() as int) =~= classes@);
        }
        (files, dirs, missing)
    }

    /// Whether a blank separator line precedes directory number `idx`.
    pub fn needs_blank_before_dir(&self, files_len: usize, idx: usize) -> (r: bool)
        ensures
            r == (files_len > 0 || idx > 0),
    {
        files_len > 0 || idx > 0
    }

    /// Whether each directory gets a `name:` header line.
    pub fn needs_dir_header(&self, files_len: usize, dirs_len: usize) -> (r: bool)
        ensures
            r == (files_len > 0 || dirs_len > 1),
    {
        files_len > 0 || dirs_len > 1
    }

    /// The `name:` header line above one directory's listing.
    pub fn dir_header_line(&self, name: &str) -> (r: String)
        ensures
            r@ == name@ + ":"@,
    {
        let mut r = String::new();
        r.append(name);
        r.append(":");
        proof {
            assert(r@ =~= name@ + ":"@);
        }
        r
    }
}

/// The larger of two widths.
pub fn max_usize(a: usize, b: usize) -> (r: usize)
    ensures
        r as nat == max_nat(a as nat, b as nat),
{
    if a > b {
        a
    } else {
        b
    }
}

} // verus!
