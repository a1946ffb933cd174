//! Tree-grouped presentation: rows are grouped into Hardware, Software and
//! Status sections with centered headers and branch glyphs, and palette
//! rows are appended at the very end.

use vstd::prelude::*;

use crate::rows::{row_view, rows_view, Row};
use crate::text::{eq_str, push_line, repeat_char, repeat_seq};
use crate::theme::{spec_format_label, spec_format_value, ThemeManager};

verus! {

/// The section a layout key belongs to.
#[derive(Clone, Copy, Debug, PartialEq, Eq, Structural)]
pub enum Category {
    Hardware,
    Software,
    Status,
}

/// The display name of a category.
pub open spec fn spec_category_name(c: Category) -> Seq<char> {
    match c {
        Category::Hardware => "Hardware"@,
        Category::Software => "Software"@,
        Category::Status => "Status"@,
    }
}

impl Category {
    /// The display name of this category.
    pub fn name(&self) -> (r: &'static str)
        ensures
            r@ == spec_category_name(*self),
    {
        match self {
            Category::Hardware => "Hardware",
            Category::Software => "Software",
            Category::Status => "Status",
        }
    }

    /// The centered header: the name padded with dashes to `width`.
    pub fn header(&self, width: usize) -> (r: String)
        ensures
            r@ == spec_category_header(*self, width as nat),
    {
        proof {
            reveal_strlit("Hardware");
            reveal_strlit("Software");
            reveal_strlit("Status");
        }
        let name = self.name();
        let name_len = match self {
            Category::Hardware => 8,
            Category::Software => 8,
            Category::Status => 6,
        };
        let total: usize = if width > name_len {
            width - name_len
        } else {
            0
        };
        let left = total / 2;
        let right = total - left;
        let mut s = repeat_char('─', left);
        s.append(name);
        s.append(repeat_char('─', right).as_str());
        proof {
            assert(name@.len() == name_len);
            assert(s@ =~= spec_category_header(*self, width as nat));
        }
        s
    }
}

/// The centered header of a category at a given width.
pub open spec fn spec_category_header(c: Category, width: nat) -> Seq<char> {
    let name = spec_category_name(c);
    let total = if width > name.len() {
        (width - name.len()) as nat
    } else {
        0nat
    };
    let left = total / 2;
    let right = (total - left) as nat;
    repeat_seq('─', left) + name + repeat_seq('─', right)
}

/// The category of a layout key; palette and unknown keys have none.
pub open spec fn spec_categorize_key(key: Seq<char>) -> Option<Category> {
    if key == "user_host"@ || key == "cpu"@ || key == "gpu"@ || key == "memory"@ || key == "disk"@
        || key == "resolution"@ || key == "swap"@ {
        Some(Category::Hardware)
    } else if key == "os"@ || key == "kernel"@ || key == "de"@ || key == "shell"@ || key
        == "terminal"@ || key == "terminal_font"@ || key == "packages"@ || key == "theme"@ || key
        == "os_age"@ {
        Some(Category::Software)
    } else if key == "uptime"@ || key == "local_ip"@ || key == "media"@ {
        Some(Category::Status)
    } else {
        None
    }
}

/// The category of a layout key, executable.
pub fn categorize_key(key: &str) -> (r: Option<Category>)
    ensures
        r == spec_categorize_key(key@),
{
    if eq_str(key, "user_host") || eq_str(key, "cpu") || eq_str(key, "gpu") || eq_str(
        key,
        "memory",
    ) || eq_str(key, "disk") || eq_str(key, "resolution") || eq_str(key, "swap") {
        Some(Category::Hardware)
    } else if eq_str(key, "os") || eq_str(key, "kernel") || eq_str(key, "de") || eq_str(
        key,
        "shell",
    ) || eq_str(key, "terminal") || eq_str(key, "terminal_font") || eq_str(key, "packages")
        || eq_str(key, "theme") || eq_str(key, "os_age") {
        Some(Category::Software)
    } else if eq_str(key, "uptime") || eq_str(key, "local_ip") || eq_str(key, "media") {
        Some(Category::Status)
    } else {
        None
    }
}

/// The label shown for a row in tree mode: the row's label, or `Host` for
/// the header row, or the bare key.
pub open spec fn spec_display_label(key: Seq<char>, label: Seq<char>) -> Seq<char> {
    if label.len() == 0 {
        if key == "user_host"@ {
            "Host"@
        } else {
            key
        }
    } else {
        label
    }
}

/// The (display label, value) pairs of the rows in the given category.
pub open spec fn spec_group_items(
    rows: Seq<(Seq<char>, Seq<char>, Seq<char>)>,
    cat: Category,
    i: int,
) -> Seq<(Seq<char>, Seq<char>)>
    decreases rows.len() - i,
{
    if i < 0 || i >= rows.len() {
        Seq::empty()
    } else {
        let rest = spec_group_items(rows, cat, i + 1);
        if rows[i].0 != "palette"@ && spec_categorize_key(rows[i].0) == Some(cat) {
            seq![(spec_display_label(rows[i].0, rows[i].1), rows[i].2)] + rest
        } else {
            rest
        }
    }
}

/// The values of the palette rows, in order.
pub open spec fn spec_palette_values(rows: Seq<(Seq<char>, Seq<char>, Seq<char>)>, i: int) -> Seq<
    Seq<char>,
>
    decreases rows.len() - i,
{
    if i < 0 || i >= rows.len() {
        Seq::empty()
    } else {
        let rest = spec_palette_values(rows, i + 1);
        if rows[i].0 == "palette"@ {
            seq![rows[i].2] + rest
        } else {
            rest
        }
    }
}

/// One line of a formatted group: the first row bare, later rows behind a
/// (possibly colored) branch glyph, the last row behind the closing glyph.
pub open spec fn spec_group_line(
    items: Seq<(Seq<char>, Seq<char>)>,
    i: int,
    tm: ThemeManager,
    tree_color: Seq<char>,
) -> Seq<char>
    recommends
        0 <= i < items.len(),
{
    let label_f = spec_format_label(tm, Seq::empty(), items[i].0);
    let val_f = spec_format_value(tm, items[i].1);
    if i == 0 {
        " "@ + label_f + ": "@ + val_f
    } else {
        let prefix: Seq<char> = if i == items.len() - 1 {
            " └─ "@
        } else {
            " ├─ "@
        };
        let cp: Seq<char> = if tm.no_color {
            prefix
        } else {
            tree_color + prefix + "\u{1b}[0m"@
        };
        cp + label_f + ": "@ + val_f
    }
}

/// The formatted lines of one group.
pub open spec fn spec_format_group(
    items: Seq<(Seq<char>, Seq<char>)>,
    tm: ThemeManager,
    tree_color: Seq<char>,
) -> Seq<Seq<char>> {
    Seq::new(items.len(), |i: int| spec_group_line(items, i, tm, tree_color))
}

/// Formats a group of (label, value) pairs with tree glyphs.
pub fn format_group(items: &Vec<(String, String)>, theme: &ThemeManager, tree_color: &str) -> (r:
    Vec<String>)
    ensures
        r.deep_view() == spec_format_group(
            items@.map_values(|p: (String, String)| (p.0@, p.1@)),
            *theme,
            tree_color@,
        ),
{
    let ghost iv = items@.map_values(|p: (String, String)| (p.0@, p.1@));
    let mut out: Vec<String> = Vec::new();
    let count = items.len();
    let mut i: usize = 0;
    while i < count
        invariant
            i <= count,
            count == items@.len(),
            iv == items@.map_values(|p: (String, String)| (p.0@, p.1@)),
            iv.len() == count,
            out.deep_view().len() == i,
            forall|j: int|
                0 <= j < i ==> #[trigger] out.deep_view()[j] == spec_group_line(
                    iv,
                    j,
                    *theme,
                    tree_color@,
                ),
        decreases count - i,
    {
        proof {
            assert(iv[i as int] == (items@[i as int].0@, items@[i as int].1@));
        }
        proof {
            reveal_strlit("");
            assert(""@ =~= Seq::<char>::empty());
        }
        let formatted_label = theme.format_label("", items[i].0.as_str());
        let formatted_value = theme.format_value(items[i].1.as_str());
        let line: String = if i == 0 {
            let mut l = String::from_str(" ");
            l.append(formatted_label.as_str());
            l.append(": ");
            l.append(formatted_value.as_str());
            l
        } else {
            let prefix: &'static str = if i == count - 1 {
                " └─ "
            } else {
                " ├─ "
            };
            let mut l: String = if theme.no_color {
                String::from_str(prefix)
            } else {
                let mut c = String::from_str(tree_color);
                c.append(prefix);
                c.append("\u{1b}[0m");
                c
            };
            l.append(formatted_label.as_str());
            l.append(": ");
            l.append(formatted_value.as_str());
            l
        };
        proof {
            assert(line@ =~= spec_group_line(iv, i as int, *theme, tree_color@));
        }
        let ghost prev = out.deep_view();
        let ghost lv = line@;
        out.push(line);
        proof {
            assert(out.deep_view().len() == i + 1);
            assert(out.deep_view()[i as int] == lv);
            assert forall|j: int| 0 <= j < i implies #[trigger] out.deep_view()[j] == prev[j] by {
                assert(out.deep_view()[j] == out@[j]@);
                assert(prev[j] == out@[j]@);
            }
        }
        i += 1;
    }
    proof {
        assert(out.deep_view() =~~= spec_format_group(iv, *theme, tree_color@));
    }
    out
}

/// One group's section: header, formatted rows, one blank line; nothing
/// when the group is empty.
pub open spec fn spec_section(
    cat: Category,
    items: Seq<(Seq<char>, Seq<char>)>,
    tm: ThemeManager,
    tree_color: Seq<char>,
    no_color: bool,
) -> Seq<Seq<char>> {
    if items.len() == 0 {
        Seq::empty()
    } else {
        let header = spec_category_header(cat, 24);
        let colored = if no_color {
            header
        } else {
            tree_color + header + "\u{1b}[0m"@
        };
        seq![colored] + spec_format_group(items, tm, tree_color) + seq![Seq::<char>::empty()]
    }
}

/// The palette rows formatted as values.
pub open spec fn spec_palette_lines(vals: Seq<Seq<char>>, tm: ThemeManager, i: int) -> Seq<
    Seq<char>,
>
    decreases vals.len() - i,
{
    if i < 0 || i >= vals.len() {
        Seq::empty()
    } else {
        seq![spec_format_value(tm, vals[i])] + spec_palette_lines(vals, tm, i + 1)
    }
}

/// What the tree output is: the non-empty Hardware, Software and Status
/// sections in that order, then the palette rows.
pub open spec fn spec_build_tree(
    rows: Seq<(Seq<char>, Seq<char>, Seq<char>)>,
    tm: ThemeManager,
    no_color: bool,
) -> Seq<Seq<char>> {
    let tc: Seq<char> = if no_color {
        Seq::empty()
    } else {
        "\u{1b}[38;5;214m"@
    };
    let hw = spec_group_items(rows, Category::Hardware, 0);
    let sw = spec_group_items(rows, Category::Software, 0);
    let st = spec_group_items(rows, Category::Status, 0);
    let pal = spec_palette_values(rows, 0);
    spec_section(Category::Hardware, hw, tm, tc, no_color) + spec_section(
        Category::Software,
        sw,
        tm,
        tc,
        no_color,
    ) + spec_section(Category::Status, st, tm, tc, no_color) + spec_palette_lines(pal, tm, 0)
}

fn group_items(rows: &Vec<Row>, cat: Category) -> (r: Vec<(String, String)>)
    ensures
        r@.map_values(|p: (String, String)| (p.0@, p.1@)) == spec_group_items(
            rows_view(rows@),
            cat,
            0,
        ),
{
    let ghost rv = rows_view(rows@);
    let mut out: Vec<(String, String)> = Vec::new();
    let n = rows.len();
    let mut i: usize = n;
    proof {
        assert(out@.map_values(|p: (String, String)| (p.0@, p.1@)) =~~= spec_group_items(
            rv,
            cat,
            n as int,
        ));
    }
    while i > 0
        invariant
            i <= n,
            n == rows@.len(),
            rv == rows_view(rows@),
            rv.len() == n,
            out@.map_values(|p: (String, String)| (p.0@, p.1@)) == spec_group_items(
                rv,
                cat,
                i as int,
            ),
        decreases i,
    {
        i -= 1;
        proof {
            assert(rv[i as int] == row_view(rows@[i as int]));
        }
        let is_palette = eq_str(rows[i].key.as_str(), "palette");
        let c = categorize_key(rows[i].key.as_str());
        let take = !is_palette && (match c {
            Some(cc) => cc == cat,
            None => false,
        });
        if take {
            let label: String = if rows[i].label.as_str().is_empty() {
                if eq_str(rows[i].key.as_str(), "user_host") {
                    String::from_str("Host")
                } else {
                    rows[i].key.clone()
                }
            } else {
                rows[i].label.clone()
            };
            proof {
                assert(label@ == spec_display_label(rv[i as int].0, rv[i as int].1));
            }
            out.insert(0, (label, rows[i].value.clone()));
            proof {
                assert(out@.map_values(|p: (String, String)| (p.0@, p.1@)) =~~= spec_group_items(
                    rv,
                    cat,
                    i as int,
                ));
            }
        } else {
            proof {
                assert(out@.map_values(|p: (String, String)| (p.0@, p.1@)) =~~= spec_group_items(
                    rv,
                    cat,
                    i as int,
                ));
            }
        }
    }
    out
}

fn palette_values(rows: &Vec<Row>) -> (r: Vec<String>)
    ensures
        r.deep_view() == spec_palette_values(rows_view(rows@), 0),
{
    let ghost rv = rows_view(rows@);
    let mut out: Vec<String> = Vec::new();
    let n = rows.len();
    let mut i: usize = n;
    proof {
        assert(out.deep_view() =~~= spec_palette_values(rv, n as int));
    }
    while i > 0
        invariant
            i <= n,
            n == rows@.len(),
            rv == rows_view(rows@),
            rv.len() == n,
            out.deep_view() == spec_palette_values(rv, i as int),
        decreases i,
    {
        i -= 1;
        proof {
            assert(rv[i as int] == row_view(rows@[i as int]));
        }
        if eq_str(rows[i].key.as_str(), "palette") {
            out.insert(0, rows[i].value.clone());
            proof {
                assert(out.deep_view() =~~= spec_palette_values(rv, i as int));
            }
        } else {
            proof {
                assert(out.deep_view() =~~= spec_palette_values(rv, i as int));
            }
        }
    }
    out
}

fn push_section(
    out: &mut Vec<String>,
    cat: Category,
    items: &Vec<(String, String)>,
    theme: &ThemeManager,
    tree_color: &str,
    no_color: bool,
)
    ensures
        final(out).deep_view() == old(out).deep_view() + spec_section(
            cat,
            items@.map_values(|p: (String, String)| (p.0@, p.1@)),
            *theme,
            tree_color@,
            no_color,
        ),
{
    let ghost iv = items@.map_values(|p: (String, String)| (p.0@, p.1@));
    if items.len() == 0 {
        proof {
            assert(old(out).deep_view() + spec_section(cat, iv, *theme, tree_color@, no_color)
                =~= old(out).deep_view());
        }
        return ;
    }
    let header = cat.header(24);
    let colored: String = if no_color {
        header
    } else {
        let mut c = String::from_str(tree_color);
        c.append(header.as_str());
        c.append("\u{1b}[0m");
        proof {
            assert(c@ =~= tree_color@ + spec_category_header(cat, 24) + "\u{1b}[0m"@);
        }
        c
    };
    let ghost base = out.deep_view();
    let ghost cv = colored@;
    push_line(out, colored);
    let lines = format_group(items, theme, tree_color);
    let ghost linesv = lines.deep_view();
    let n = lines.len();
    let mut i: usize = 0;
    proof {
        assert(out.deep_view() =~= base + seq![cv]) by {
            assert(out.deep_view() == base.push(cv));
        }
    }
    while i < n
        invariant
            i <= n,
            n == lines@.len(),
            linesv == lines.deep_view(),
            linesv.len() == n,
            out.deep_view() == base + seq![cv] + linesv.subrange(0, i as int),
        decreases n - i,
    {
        proof {
            assert(linesv[i as int] == lines@[i as int]@);
        }
        push_line(out, lines[i].clone());
        proof {
            assert(out.deep_view() =~= base + seq![cv] + linesv.subrange(0, i + 1));
        }
        i += 1;
    }
    push_line(out, String::new());
    proof {
        assert(linesv.subrange(0, n as int) =~= linesv);
        assert(out.deep_view() =~= base + spec_section(cat, iv, *theme, tree_color@, no_color));
    }
}

/// Builds the tree-grouped output lines of the collected rows.
pub fn build_tree_output(rows: &Vec<Row>, theme: &ThemeManager, no_color: bool) -> (r: Vec<String>)
    ensures
        r.deep_view() == spec_build_tree(rows_view(rows@), *theme, no_color),
{
    let tree_color: &'static str = if no_color {
        ""
    } else {
        "\u{1b}[38;5;214m"
    };
    proof {
        if no_color {
            reveal_strlit("");
            assert(tree_color@ =~= Seq::<char>::empty());
        }
    }
    let hw = group_items(rows, Category::Hardware);
    let sw = group_items(rows, Category::Software);
    let st = group_items(rows, Category::Status);
    let pal = palette_values(rows);
    let mut out: Vec<String> = Vec::new();
    proof {
        assert(out.deep_view() =~~= Seq::<Seq<char>>::empty());
    }
    push_section(&mut out, Category::Hardware, &hw, theme, tree_color, no_color);
    push_section(&mut out, Category::Software, &sw, theme, tree_color, no_color);
    push_section(&mut out, Category::Status, &st, theme, tree_color, no_color);
    let ghost base = out.deep_view();
    let ghost palv = pal.deep_view();
    let n = pal.len();
    let mut i: usize = 0;
    let ghost rv = rows_view(rows@);
    proof {
        assert(base + spec_palette_lines(spec_palette_values(rv, 0), *theme, 0) =~= base
            + spec_palette_lines(palv, *theme, 0));
    }
    while i < n
        invariant
            i <= n,
            n == pal@.len(),
            palv == pal.deep_view(),
            palv.len() == n,
            theme.no_color ==> true,
            out.deep_view() + spec_palette_lines(palv, *theme, i as int) == base
                + spec_palette_lines(palv, *theme, 0),
        decreases n - i,
    {
        proof {
            assert(palv[i as int] == pal@[i as int]@);
        }
        let ghost before = out.deep_view();
        let v = theme.format_value(pal[i].as_str());
        push_line(&mut out, v);
        proof {
            assert(out.deep_view() =~= before + seq![spec_format_value(*theme, palv[i as int])]);
            assert(out.deep_view() + spec_palette_lines(palv, *theme, i + 1) =~= before
                + spec_palette_lines(palv, *theme, i as int));
        }
        i += 1;
    }
    proof {
        assert(spec_palette_lines(palv, *theme, n as int) == Seq::<Seq<char>>::empty());
        assert(out.deep_view() =~= out.deep_view() + Seq::<Seq<char>>::empty());
        assert(out.deep_view() =~= spec_build_tree(rv, *theme, no_color));
    }
    out
}

} // verus!
