//! Disk usage rows: relevance filtering of mounts, row formatting, and the
//! root-first ordering.

use vstd::prelude::*;

use crate::bar::{spec_bar, bar, CURRENT_BAR_STYLE};
use crate::item::{item_view, items_sorted, items_view, sort_items, InfoItem};
use crate::numfmt::{dec_seq, format_bytes, spec_format_bytes, u64_to_dec};
use crate::text::{
    chars_of, contains_chars, lower_seq, seq_contains, seq_starts_with, starts_with_chars,
    to_lower_str,
};

verus! {

/// The medium behind a mount, as far as the probe can tell.
#[derive(Clone, Copy, Debug, PartialEq, Eq, Structural)]
pub enum DiskMedium {
    /// A solid-state drive.
    Ssd,
    /// A rotating drive.
    Hdd,
    /// Anything else (network, loop, unknown).
    Other,
}

/// The plain facts about one mount that the disk module reads.
#[derive(Debug)]
pub struct DiskFact {
    pub mount: String,
    pub device_name: String,
    pub fs: String,
    pub kind: DiskMedium,
    pub total_space: u64,
    pub available_space: u64,
}

/// Whether a mount is shown: virtual and temporary mounts are excluded, and
/// loop devices only count when they sit on a real drive.
pub open spec fn spec_is_relevant_disk(mount: Seq<char>, name: Seq<char>, kind: DiskMedium) -> bool {
    if seq_contains(mount, "snap"@) {
        false
    } else {
        let ml = lower_seq(mount);
        if ml == "/tmp"@ || ml == "/run"@ || ml == "/dev/shm"@ || seq_starts_with(ml, "/sys"@)
            || seq_starts_with(ml, "/proc"@) || seq_contains(ml, "/run/"@) || seq_contains(
            ml,
            "overlay"@,
        ) {
            false
        } else if seq_contains(lower_seq(name), "loop"@) {
            kind is Ssd || kind is Hdd
        } else {
            true
        }
    }
}

/// Whether a mount is shown (executable).
pub fn is_relevant_disk(mount: &str, name: &str, kind: DiskMedium) -> (r: bool)
    ensures
        r == spec_is_relevant_disk(mount@, name@, kind),
{
    let mc = chars_of(mount);
    if contains_chars(&mc, &chars_of("snap")) {
        return false;
    }
    let ml = {
        let l = to_lower_str(mount);
        chars_of(l.as_str())
    };
    if crate::text::eq_chars(&ml, &chars_of("/tmp")) || crate::text::eq_chars(
        &ml,
        &chars_of("/run"),
    ) || crate::text::eq_chars(&ml, &chars_of("/dev/shm")) || starts_with_chars(
        &ml,
        &chars_of("/sys"),
    ) || starts_with_chars(&ml, &chars_of("/proc")) || contains_chars(&ml, &chars_of("/run/"))
        || contains_chars(&ml, &chars_of("overlay")) {
        return false;
    }
    let nl = {
        let l = to_lower_str(name);
        chars_of(l.as_str())
    };
    if contains_chars(&nl, &chars_of("loop")) {
        return matches!(kind, DiskMedium::Ssd | DiskMedium::Hdd);
    }
    true
}

/// The displayed mount path: `/` for an empty path.
pub open spec fn spec_mount_display(m: Seq<char>) -> Seq<char> {
    if m.len() == 0 {
        "/"@
    } else {
        m
    }
}

/// The displayed filesystem name: `?` for an empty one.
pub open spec fn spec_fs_display(fs: Seq<char>) -> Seq<char> {
    if fs.len() == 0 {
        "?"@
    } else {
        fs
    }
}

/// The integer percentage `used / total * 100`, rounded to nearest.
pub open spec fn spec_pct(used: nat, total: nat) -> nat
    recommends
        total > 0,
{
    ((2 * (used as int) * 100 + total) / (2 * (total as int))) as nat
}

/// The percentage, executable.
pub fn pct_of(used: u64, total: u64) -> (r: u64)
    requires
        0 < total,
        used <= total,
    ensures
        r == spec_pct(used as nat, total as nat),
{
    let num: u128 = 2 * (used as u128) * 100 + (total as u128);
    let den: u128 = 2 * (total as u128);
    let q = num / den;
    proof {
        assert((num as int) < (den as int) * 101) by (nonlinear_arith)
            requires
                num == 2 * (used as int) * 100 + total,
                den == 2 * (total as int),
                used <= total,
                total >= 1,
        ;
        vstd::arithmetic::div_mod::lemma_multiply_divide_lt(num as int, den as int, 101);
    }
    q as u64
}

/// The label of one disk row.
pub open spec fn spec_disk_label(prefix: Seq<char>, mount: Seq<char>, fs: Seq<char>) -> Seq<char> {
    if prefix.len() == 0 {
        spec_mount_display(mount) + " ("@ + spec_fs_display(fs) + ")"@
    } else {
        prefix + " ("@ + spec_mount_display(mount) + ", "@ + spec_fs_display(fs) + ")"@
    }
}

/// The value of one disk row: percentage, used and total, and optionally a
/// bracketed usage bar.
pub open spec fn spec_disk_value(
    used: nat,
    total: nat,
    unit_lower: Seq<char>,
    show_bar: bool,
) -> Seq<char> {
    let pct = if total > 0 {
        spec_pct(used, total)
    } else {
        0
    };
    let base = dec_seq(pct) + "% ("@ + spec_format_bytes(used, unit_lower) + " / "@
        + spec_format_bytes(total, unit_lower) + ")"@;
    if show_bar && total > 0 {
        base + " ["@ + spec_bar(used, total, crate::BAR_WIDTH as nat, CURRENT_BAR_STYLE) + "]"@
    } else {
        base
    }
}

/// The row of one mount.
pub open spec fn spec_disk_row(
    d: DiskFact,
    show_bar: bool,
    prefix: Seq<char>,
    unit_lower: Seq<char>,
) -> (Seq<char>, Seq<char>) {
    let used = (d.total_space - d.available_space) as nat;
    let used = if d.available_space > d.total_space {
        0nat
    } else {
        used
    };
    (
        spec_disk_label(prefix, d.mount@, d.fs@),
        spec_disk_value(used, d.total_space as nat, unit_lower, show_bar),
    )
}

/// The unsorted rows of the relevant mounts, in input order.
pub open spec fn spec_disk_rows(
    ds: Seq<DiskFact>,
    show_bar: bool,
    prefix: Seq<char>,
    unit_lower: Seq<char>,
) -> Seq<(Seq<char>, Seq<char>)>
    decreases ds.len(),
{
    if ds.len() == 0 {
        Seq::empty()
    } else {
        let rest = spec_disk_rows(ds.drop_first(), show_bar, prefix, unit_lower);
        if spec_is_relevant_disk(ds[0].mount@, ds[0].device_name@, ds[0].kind) {
            seq![spec_disk_row(ds[0], show_bar, prefix, unit_lower)] + rest
        } else {
            rest
        }
    }
}

fn disk_row(d: &DiskFact, show_bar: bool, prefix: &str, unit_type: &str) -> (r: InfoItem)
    ensures
        item_view(r) == spec_disk_row(*d, show_bar, prefix@, lower_seq(unit_type@)),
{
    let total = d.total_space;
    let used = if d.available_space > total {
        0
    } else {
        total - d.available_space
    };
    let used_str = format_bytes(used, unit_type);
    let total_str = format_bytes(total, unit_type);
    let pct: u64 = if total > 0 {
        pct_of(used, total)
    } else {
        0
    };
    let mut value = u64_to_dec(pct);
    value.append("% (");
    value.append(used_str.as_str());
    value.append(" / ");
    value.append(total_str.as_str());
    value.append(")");
    if show_bar && total > 0 {
        value.append(" [");
        let b = bar(used, total, crate::BAR_WIDTH);
        value.append(b.as_str());
        value.append("]");
    }
    let mut label = String::new();
    let mount_disp: &str = if d.mount.as_str().is_empty() {
        "/"
    } else {
        d.mount.as_str()
    };
    let fs_disp: &str = if d.fs.as_str().is_empty() {
        "?"
    } else {
        d.fs.as_str()
    };
    if prefix.is_empty() {
        label.append(mount_disp);
        label.append(" (");
        label.append(fs_disp);
        label.append(")");
    } else {
        label.append(prefix);
        label.append(" (");
        label.append(mount_disp);
        label.append(", ");
        label.append(fs_disp);
        label.append(")");
    }
    proof {
        assert(label@ =~= spec_disk_label(prefix@, d.mount@, d.fs@));
        assert(value@ =~= spec_disk_value(
            used as nat,
            total as nat,
            lower_seq(unit_type@),
            show_bar,
        ));
    }
    InfoItem { label, value }
}

/// One row per relevant mount, ordered root-like mounts first and then by
/// label; the rows are exactly those of `spec_disk_rows`.
pub fn get(disks: &Vec<DiskFact>, show_bar: bool, label_prefix: &str, unit_type: &str) -> (r: Vec<
    InfoItem,
>)
    ensures
        items_view(r@).to_multiset() == spec_disk_rows(
            disks@,
            show_bar,
            label_prefix@,
            lower_seq(unit_type@),
        ).to_multiset(),
        items_sorted(items_view(r@)),
{
    broadcast use vstd::seq_lib::group_to_multiset_ensures;

    let ghost ul = lower_seq(unit_type@);
    let mut items: Vec<InfoItem> = Vec::new();
    let mut i: usize = 0;
    proof {
        assert(items_view(items@) =~= Seq::<(Seq<char>, Seq<char>)>::empty());
    }
    while i < disks.len()
        invariant
            i <= disks@.len(),
            ul == lower_seq(unit_type@),
            items_view(items@) == spec_disk_rows(
                disks@.subrange(0, i as int),
                show_bar,
                label_prefix@,
                ul,
            ),
        decreases disks.len() - i,
    {
        let ghost pre = disks@.subrange(0, i as int);
        let d = &disks[i];
        if is_relevant_disk(d.mount.as_str(), d.device_name.as_str(), d.kind) {
            let row = disk_row(d, show_bar, label_prefix, unit_type);
            items.push(row);
        }
        proof {
            lemma_disk_rows_push(disks@.subrange(0, i + 1), show_bar, label_prefix@, ul);
            assert(disks@.subrange(0, i + 1).drop_last() =~= pre);
            assert(disks@.subrange(0, i + 1).last() == disks@[i as int]);
            assert(items_view(items@) =~= spec_disk_rows(
                disks@.subrange(0, i + 1),
                show_bar,
                label_prefix@,
                ul,
            ));
        }
        i += 1;
    }
    proof {
        assert(disks@.subrange(0, disks@.len() as int) =~= disks@);
    }
    sort_items(items)
}

/// Appending one fact appends its row (when relevant) at the end.
proof fn lemma_disk_rows_push(
    ds: Seq<DiskFact>,
    show_bar: bool,
    prefix: Seq<char>,
    unit_lower: Seq<char>,
)
    requires
        ds.len() > 0,
    ensures
        spec_disk_rows(ds, show_bar, prefix, unit_lower) == spec_disk_rows(
            ds.drop_last(),
            show_bar,
            prefix,
            unit_lower,
        ) + (if spec_is_relevant_disk(ds.last().mount@, ds.last().device_name@, ds.last().kind) {
            seq![spec_disk_row(ds.last(), show_bar, prefix, unit_lower)]
        } else {
            Seq::empty()
        }),
    decreases ds.len(),
{
    if ds.len() == 1 {
        assert(ds.drop_first().len() == 0);
        assert(ds.drop_last().len() == 0);
        assert(ds[0] == ds.last());
        assert(spec_disk_rows(ds.drop_first(), show_bar, prefix, unit_lower) == Seq::<(
            Seq<char>,
            Seq<char>,
        )>::empty());
        assert(spec_disk_rows(ds.drop_last(), show_bar, prefix, unit_lower) == Seq::<(
            Seq<char>,
            Seq<char>,
        )>::empty());
        let last_part: Seq<(Seq<char>, Seq<char>)> = if spec_is_relevant_disk(
            ds.last().mount@,
            ds.last().device_name@,
            ds.last().kind,
        ) {
            seq![spec_disk_row(ds.last(), show_bar, prefix, unit_lower)]
        } else {
            Seq::empty()
        };
        assert(spec_disk_rows(ds, show_bar, prefix, unit_lower) =~= Seq::<(
            Seq<char>,
            Seq<char>,
        )>::empty() + last_part);
    } else {
        lemma_disk_rows_push(ds.drop_first(), show_bar, prefix, unit_lower);
        assert(ds.drop_first().drop_last() =~= ds.drop_last().drop_first());
        assert(ds.drop_first().last() == ds.last());
        assert(ds.drop_last()[0] == ds[0]);
        assert(ds.drop_last().len() > 0);
        let tail_rows = spec_disk_rows(ds.drop_first(), show_bar, prefix, unit_lower);
        let tail_pre = spec_disk_rows(ds.drop_last().drop_first(), show_bar, prefix, unit_lower);
        let last_part: Seq<(Seq<char>, Seq<char>)> = if spec_is_relevant_disk(
            ds.last().mount@,
            ds.last().device_name@,
            ds.last().kind,
        ) {
            seq![spec_disk_row(ds.last(), show_bar, prefix, unit_lower)]
        } else {
            Seq::empty()
        };
        assert(tail_rows == tail_pre + last_part);
        if spec_is_relevant_disk(ds[0].mount@, ds[0].device_name@, ds[0].kind) {
            assert(spec_disk_rows(ds, show_bar, prefix, unit_lower) == seq![spec_disk_row(
                ds[0],
                show_bar,
                prefix,
                unit_lower,
            )] + tail_rows);
            assert(spec_disk_rows(ds.drop_last(), show_bar, prefix, unit_lower)
                == seq![spec_disk_row(ds[0], show_bar, prefix, unit_lower)] + tail_pre);
            assert((seq![spec_disk_row(ds[0], show_bar, prefix, unit_lower)] + tail_pre)
                + last_part =~= seq![spec_disk_row(ds[0], show_bar, prefix, unit_lower)] + (
            tail_pre + last_part));
        }
    }
}

} // verus!
