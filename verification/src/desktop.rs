//! Application launchers described by XDG `.desktop` files: reading one
//! file's `[Desktop Entry]` group, and gathering launchers without
//! repeating an id.
use vstd::prelude::*;

use crate::text::{
    chars_of, eq_ignore_ascii_case, eq_ignore_ascii_case_in, find_sub, find_text_in, line_ranges,
    lines, pieces, range_is, range_texts, ranges_within, split_pieces, starts_with, starts_with_in,
    string_of, text_is, trim, trim_range, Separator, lemma_find_sub_sound, lemma_trim_idempotent,
    lemma_pieces_shape, separates,
    lemma_trim_shape, occurs_at,
};
use crate::trusted::{extension_of, file_stem_of, join_path, path_extension, path_file_stem, path_join};

verus! {

/// An application launcher read from a `.desktop` file.
#[derive(Clone, Debug)]
pub struct XdgApplication {
    pub id: String,
    pub name: String,
    /// The `Exec` command line, without its field codes.
    pub command: String,
    pub icon: String,
    pub comment: String,
    pub categories: Vec<String>,
    pub desktop_file: String,
}

/// The content of an `XdgApplication`.
pub struct AppModel {
    pub id: Seq<char>,
    pub name: Seq<char>,
    pub command: Seq<char>,
    pub icon: Seq<char>,
    pub comment: Seq<char>,
    pub categories: Seq<Seq<char>>,
    pub desktop_file: Seq<char>,
}

impl View for XdgApplication {
    type V = AppModel;

    open spec fn view(&self) -> AppModel {
        AppModel {
            id: self.id@,
            name: self.name@,
            command: self.command@,
            icon: self.icon@,
            comment: self.comment@,
            categories: self.categories.deep_view(),
            desktop_file: self.desktop_file@,
        }
    }
}

impl DeepView for XdgApplication {
    type V = AppModel;

    open spec fn deep_view(&self) -> AppModel {
        self@
    }
}

// ---------------------------------------------------------------------------
// Reading a `.desktop` file
// ---------------------------------------------------------------------------

/// What has been read of a `.desktop` file so far.
pub struct EntryState {
    /// The lines read now belong to the `[Desktop Entry]` group.
    pub in_entry: bool,
    pub name: Seq<char>,
    pub command: Seq<char>,
    pub icon: Seq<char>,
    pub comment: Seq<char>,
    pub categories: Seq<Seq<char>>,
    /// `NoDisplay` was last set to `true` (in any ASCII case).
    pub hidden: bool,
}

pub open spec fn initial_entry_state() -> EntryState {
    EntryState {
        in_entry: false,
        name: seq![],
        command: seq![],
        icon: seq![],
        comment: seq![],
        categories: seq![],
        hidden: false,
    }
}

/// The part of `s` before the first occurrence of `p` (all of `s` when `p`
/// does not occur).
pub open spec fn before_first(s: Seq<char>, p: Seq<char>) -> Seq<char> {
    match find_sub(s, p) {
        Some(k) => s.take(k),
        None => s,
    }
}

/// A `key=value` line of the `[Desktop Entry]` group. `Name`, `Exec`, `Icon`
/// and `Comment` keep their first non-empty value; the command line of
/// `Exec` ends before its first `%` field code; `NoDisplay` and `Categories`
/// take their last value, the categories being the non-empty pieces between
/// `;`.
pub open spec fn apply_key(st: EntryState, key: Seq<char>, value: Seq<char>) -> EntryState {
    if key == "Name"@ && st.name.len() == 0 {
        EntryState { name: value, ..st }
    } else if key == "Exec"@ && st.command.len() == 0 {
        EntryState { command: trim(before_first(value, "%"@)), ..st }
    } else if key == "Icon"@ && st.icon.len() == 0 {
        EntryState { icon: value, ..st }
    } else if key == "Comment"@ && st.comment.len() == 0 {
        EntryState { comment: value, ..st }
    } else if key == "NoDisplay"@ {
        EntryState { hidden: eq_ignore_ascii_case(value, "true"@), ..st }
    } else if key == "Categories"@ {
        EntryState { categories: pieces(value, Separator::Char(';')), ..st }
    } else {
        st
    }
}

/// Law: a key other than `Name`, `Exec`, `Icon`, `Comment`, `NoDisplay` and
/// `Categories`, written exactly so, changes nothing; a localized key such as
/// `Comment[tr]` is such a key.
pub proof fn lemma_other_keys_ignored(st: EntryState, key: Seq<char>, value: Seq<char>)
    requires
        key != "Name"@,
        key != "Exec"@,
        key != "Icon"@,
        key != "Comment"@,
        key != "NoDisplay"@,
        key != "Categories"@,
    ensures
        apply_key(st, key, value) == st,
{
}

/// Law: once a name, a command, an icon or a comment is set to a non-empty
/// text, no later key changes it; no key opens or closes the group.
pub proof fn lemma_first_values_stay(st: EntryState, key: Seq<char>, value: Seq<char>)
    ensures
        apply_key(st, key, value).in_entry == st.in_entry,
        st.name.len() > 0 ==> apply_key(st, key, value).name == st.name,
        st.command.len() > 0 ==> apply_key(st, key, value).command == st.command,
        st.icon.len() > 0 ==> apply_key(st, key, value).icon == st.icon,
        st.comment.len() > 0 ==> apply_key(st, key, value).comment == st.comment,
{
}

/// Law: each of the six keys sets its own field and leaves the others as
/// they are: `Name`, `Icon` and `Comment` take the value while still empty,
/// `Exec` the trimmed text before its first `%` while still empty,
/// `NoDisplay` whether the value is `true` in any ASCII case, `Categories`
/// the non-empty pieces between `;`.
pub proof fn lemma_key_sets_its_field(st: EntryState, value: Seq<char>)
    ensures
        st.name.len() == 0 ==> apply_key(st, "Name"@, value) == (EntryState { name: value, ..st }),
        st.command.len() == 0 ==> apply_key(st, "Exec"@, value) == (EntryState {
            command: trim(before_first(value, "%"@)),
            ..st
        }),
        st.icon.len() == 0 ==> apply_key(st, "Icon"@, value) == (EntryState { icon: value, ..st }),
        st.comment.len() == 0 ==> apply_key(st, "Comment"@, value) == (EntryState {
            comment: value,
            ..st
        }),
        apply_key(st, "NoDisplay"@, value) == (EntryState {
            hidden: eq_ignore_ascii_case(value, "true"@),
            ..st
        }),
        apply_key(st, "Categories"@, value) == (EntryState {
            categories: pieces(value, Separator::Char(';')),
            ..st
        }),
{
    reveal_strlit("Name");
    reveal_strlit("Exec");
    reveal_strlit("Icon");
    reveal_strlit("Comment");
    reveal_strlit("NoDisplay");
    reveal_strlit("Categories");
    assert("Exec"@[0] != "Name"@[0]);
    assert("Icon"@[0] != "Name"@[0] && "Icon"@[0] != "Exec"@[0]);
    assert("Comment"@.len() != "Name"@.len());
    assert("NoDisplay"@.len() != "Name"@.len() && "NoDisplay"@.len() != "Comment"@.len());
    assert("Categories"@.len() != "Name"@.len() && "Categories"@.len() != "Comment"@.len()
        && "Categories"@.len() != "NoDisplay"@.len());
}

/// One line of a `.desktop` file, trimmed: `[Desktop Entry]` opens the group;
/// another line starting with `[` closes it; inside the group a line with `=`
/// is a key (trimmed text before the first `=`) and a value (trimmed text
/// after it).
pub open spec fn entry_step(st: EntryState, raw: Seq<char>) -> EntryState {
    let line = trim(raw);
    if line == "[Desktop Entry]"@ {
        EntryState { in_entry: true, ..st }
    } else {
        let inside = if starts_with(line, "["@) {
            false
        } else {
            st.in_entry
        };
        let st2 = EntryState { in_entry: inside, ..st };
        if !inside {
            st2
        } else {
            match find_sub(line, "="@) {
                None => st2,
                Some(k) => apply_key(st2, trim(line.take(k)), trim(line.skip(k + "="@.len()))),
            }
        }
    }
}

/// The state after reading the lines `ls` in order, starting from `st`.
pub open spec fn scan_from(st: EntryState, ls: Seq<Seq<char>>) -> EntryState
    decreases ls.len(),
{
    if ls.len() == 0 {
        st
    } else {
        entry_step(scan_from(st, ls.drop_last()), ls.last())
    }
}

/// The state after reading the lines `ls` of a file in order.
pub open spec fn scan_entries(ls: Seq<Seq<char>>) -> EntryState {
    scan_from(initial_entry_state(), ls)
}

/// The launcher that a `.desktop` file at `path` with the lines `ls`
/// describes: none when it is marked `NoDisplay`, lacks a name or a command,
/// or its path has no file stem; else the id is the file stem and the
/// launcher records the path it came from.
pub open spec fn entry_of_lines(path: Seq<char>, ls: Seq<Seq<char>>) -> Option<AppModel> {
    let st = scan_entries(ls);
    if st.hidden || st.name.len() == 0 || st.command.len() == 0 {
        None
    } else {
        match path_file_stem(path) {
            None => None,
            Some(stem) => Some(
                AppModel {
                    id: stem,
                    name: st.name,
                    command: st.command,
                    icon: st.icon,
                    comment: st.comment,
                    categories: st.categories,
                    desktop_file: path,
                },
            ),
        }
    }
}

/// The launcher that the `.desktop` file at `path` with text `content`
/// describes.
pub open spec fn desktop_entry(path: Seq<char>, content: Seq<char>) -> Option<AppModel> {
    entry_of_lines(path, lines(content))
}

struct EntryFields {
    in_entry: bool,
    name: String,
    command: String,
    icon: String,
    comment: String,
    categories: Vec<String>,
    hidden: bool,
}

impl EntryFields {
    spec fn state(&self) -> EntryState {
        EntryState {
            in_entry: self.in_entry,
            name: self.name@,
            command: self.command@,
            icon: self.icon@,
            comment: self.comment@,
            categories: self.categories.deep_view(),
            hidden: self.hidden,
        }
    }
}

fn apply_key_exec(f: &mut EntryFields, v: &[char], ka: usize, kb: usize, va: usize, vb: usize)
    requires
        ka <= kb <= v@.len(),
        va <= vb <= v@.len(),
    ensures
        final(f).state() == apply_key(
            old(f).state(),
            v@.subrange(ka as int, kb as int),
            v@.subrange(va as int, vb as int),
        ),
{
    let ghost value = v@.subrange(va as int, vb as int);
    if range_is(v, ka, kb, "Name") && f.name.as_str().is_empty() {
        f.name = string_of(v, va, vb);
    } else if range_is(v, ka, kb, "Exec") && f.command.as_str().is_empty() {
        let cut = match find_text_in(v, va, vb, "%") {
            Some(k) => k,
            None => vb,
        };
        assert(v@.subrange(va as int, cut as int) == before_first(value, "%"@)) by {
            if cut < vb || find_sub(value, "%"@) is Some {
                assert(value.take(cut - va) =~= v@.subrange(va as int, cut as int));
            } else {
                assert(value =~= v@.subrange(va as int, cut as int));
            }
        }
        let (a, b) = trim_range(v, va, cut);
        f.command = string_of(v, a, b);
    } else if range_is(v, ka, kb, "Icon") && f.icon.as_str().is_empty() {
        f.icon = string_of(v, va, vb);
    } else if range_is(v, ka, kb, "Comment") && f.comment.as_str().is_empty() {
        f.comment = string_of(v, va, vb);
    } else if range_is(v, ka, kb, "NoDisplay") {
        let t = chars_of("true");
        f.hidden = eq_ignore_ascii_case_in(v, va, vb, t.as_slice());
    } else if range_is(v, ka, kb, "Categories") {
        f.categories = split_pieces(v, va, vb, Separator::Char(';'));
    }
}

fn entry_step_exec(f: &mut EntryFields, v: &[char], a0: usize, b0: usize)
    requires
        a0 <= b0 <= v@.len(),
    ensures
        final(f).state() == entry_step(old(f).state(), v@.subrange(a0 as int, b0 as int)),
{
    let (a, b) = trim_range(v, a0, b0);
    let ghost line = v@.subrange(a as int, b as int);
    if range_is(v, a, b, "[Desktop Entry]") {
        f.in_entry = true;
        return ;
    }
    let open = chars_of("[");
    if starts_with_in(v, a, b, open.as_slice()) {
        f.in_entry = false;
    }
    if !f.in_entry {
        return ;
    }
    match find_text_in(v, a, b, "=") {
        None => {},
        Some(k) => {
            let eq = chars_of("=");
            assert(line.take(k - a) =~= v@.subrange(a as int, k as int));
            assert(line.skip(k - a + "="@.len()) =~= v@.subrange(k + eq@.len(), b as int));
            let (ka, kb) = trim_range(v, a, k);
            let (va, vb) = trim_range(v, k + eq.len(), b);
            apply_key_exec(f, v, ka, kb, va, vb);
        },
    }
}

/// Reads the `[Desktop Entry]` group of the `.desktop` file at `path`, whose
/// text is `content`.
pub fn parse_desktop_entry(path: &str, content: &str) -> (r: Option<XdgApplication>)
    ensures
        match r {
            Some(app) => desktop_entry(path@, content@) == Some(app@),
            None => desktop_entry(path@, content@) is None,
        },
{
    let v = chars_of(content);
    let rs = line_ranges(v.as_slice());
    let mut f = EntryFields {
        in_entry: false,
        name: String::new(),
        command: String::new(),
        icon: String::new(),
        comment: String::new(),
        categories: Vec::new(),
        hidden: false,
    };
    assert(f.categories.deep_view() =~= Seq::<Seq<char>>::empty());
    assert(lines(v@).take(0) =~= Seq::<Seq<char>>::empty());
    let mut k: usize = 0;
    while k < rs.len()
        invariant
            ranges_within(v@, rs@),
            range_texts(v@, rs@) == lines(v@),
            k <= rs@.len(),
            f.state() == scan_entries(lines(v@).take(k as int)),
        decreases rs@.len() - k,
    {
        let (a0, b0) = rs[k];
        assert(lines(v@).take(k + 1).drop_last() =~= lines(v@).take(k as int));
        assert(range_texts(v@, rs@)[k as int] == v@.subrange(a0 as int, b0 as int));
        entry_step_exec(&mut f, v.as_slice(), a0, b0);
        k += 1;
    }
    assert(lines(v@).take(rs@.len() as int) =~= lines(v@));
    if f.hidden || f.name.as_str().is_empty() || f.command.as_str().is_empty() {
        return None;
    }
    match file_stem_of(path) {
        None => None,
        Some(stem) => Some(
            XdgApplication {
                id: stem,
                name: f.name,
                command: f.command,
                icon: f.icon,
                comment: f.comment,
                categories: f.categories,
                desktop_file: path.to_owned(),
            },
        ),
    }
}


/// No character of `s` is `c`.
pub open spec fn free_of(s: Seq<char>, c: char) -> bool {
    forall|i: int| 0 <= i < s.len() ==> #[trigger] s[i] != c
}

proof fn lemma_before_percent_free(value: Seq<char>)
    ensures
        free_of(trim(before_first(value, "%"@)), '%'),
{
    reveal_strlit("%");
    let b = before_first(value, "%"@);
    lemma_find_sub_sound(value, "%"@);
    assert forall|j: int| 0 <= j < b.len() implies #[trigger] b[j] != '%' by {
        if b[j] == '%' {
            assert(value.subrange(j, j + 1) =~= "%"@);
            assert(occurs_at(value, "%"@, j));
        }
    }
    lemma_trim_shape(b);
    let (a, e) = choose|a: int, e: int| 0 <= a <= e <= b.len() && #[trigger] b.subrange(a, e) == trim(b);
    assert forall|j: int| 0 <= j < trim(b).len() implies #[trigger] trim(b)[j] != '%' by {
        assert(trim(b)[j] == b[a + j]);
    }
}

/// The text values read so far are trimmed, the command holds no `%`, and
/// each category is non-empty and holds no `;`.
pub open spec fn fields_clean(st: EntryState) -> bool {
    &&& free_of(st.command, '%')
    &&& trim(st.command) == st.command
    &&& trim(st.name) == st.name
    &&& trim(st.icon) == st.icon
    &&& trim(st.comment) == st.comment
    &&& forall|i: int|
        0 <= i < st.categories.len() ==> #[trigger] st.categories[i].len() > 0 && free_of(
            st.categories[i],
            ';',
        )
}

proof fn lemma_scan_fields_clean(ls: Seq<Seq<char>>)
    ensures
        fields_clean(scan_entries(ls)),
    decreases ls.len(),
{
    if ls.len() == 0 {
        assert(trim(Seq::<char>::empty()) == Seq::<char>::empty());
    } else {
        lemma_scan_fields_clean(ls.drop_last());
        let line = trim(ls.last());
        if let Some(k) = find_sub(line, "="@) {
            let value = trim(line.skip(k + "="@.len()));
            lemma_before_percent_free(value);
            lemma_trim_idempotent(before_first(value, "%"@));
            lemma_trim_idempotent(line.skip(k + "="@.len()));
            lemma_pieces_shape(value, Separator::Char(';'));
            let ps = pieces(value, Separator::Char(';'));
            assert forall|i: int| 0 <= i < ps.len() implies #[trigger] ps[i].len() > 0 && free_of(
                ps[i],
                ';',
            ) by {
                assert forall|j: int| 0 <= j < ps[i].len() implies #[trigger] ps[i][j] != ';' by {
                    assert(!separates(Separator::Char(';'), ps[i][j]));
                }
            }
        }
    }
}

/// Law: a launcher read from a `.desktop` file has a name and a command;
/// its name, command, icon and comment have no white space at either end;
/// its command holds no `%` (its field codes are cut off); each of its
/// categories is non-empty and holds no `;`; its id is the file stem of its
/// path, and it records that path.
pub proof fn lemma_launcher_fields_are_clean(path: Seq<char>, content: Seq<char>)
    ensures
        desktop_entry(path, content) matches Some(app) ==> {
            &&& app.command.len() > 0
            &&& app.name.len() > 0
            &&& free_of(app.command, '%')
            &&& trim(app.command) == app.command
            &&& trim(app.name) == app.name
            &&& trim(app.icon) == app.icon
            &&& trim(app.comment) == app.comment
            &&& forall|i: int|
                0 <= i < app.categories.len() ==> #[trigger] app.categories[i].len() > 0 && free_of(
                    app.categories[i],
                    ';',
                )
            &&& path_file_stem(path) == Some(app.id)
            &&& app.desktop_file == path
        },
{
    lemma_scan_fields_clean(lines(content));
}

/// Reading `a` and then `b` is reading `a + b`.
pub proof fn lemma_scan_concat(st: EntryState, a: Seq<Seq<char>>, b: Seq<Seq<char>>)
    ensures
        scan_from(st, a + b) == scan_from(scan_from(st, a), b),
    decreases b.len(),
{
    if b.len() == 0 {
        assert(a + b =~= a);
    } else {
        lemma_scan_concat(st, a, b.drop_last());
        assert((a + b).drop_last() =~= a + b.drop_last());
        assert((a + b).last() == b.last());
    }
}

/// Law: a line read outside the `[Desktop Entry]` group that does not open
/// that group changes nothing: the launcher read from the lines with it is
/// the launcher read from the lines without it.
pub proof fn lemma_lines_outside_entry_ignored(
    path: Seq<char>,
    before: Seq<Seq<char>>,
    line: Seq<char>,
    after: Seq<Seq<char>>,
)
    requires
        !scan_entries(before).in_entry,
        trim(line) != "[Desktop Entry]"@,
    ensures
        entry_of_lines(path, before + seq![line] + after) == entry_of_lines(path, before + after),
{
    let init = initial_entry_state();
    let st = scan_entries(before);
    assert(entry_step(st, line) == st);
    lemma_scan_concat(init, before, seq![line]);
    let one = seq![line];
    assert(one.drop_last() =~= Seq::<Seq<char>>::empty());
    assert(one.last() == line);
    assert(scan_from(st, one.drop_last()) == st);
    assert(scan_from(st, one) == entry_step(st, line));
    lemma_scan_concat(init, before + seq![line], after);
    lemma_scan_concat(init, before, after);
}

/// The path names a `.desktop` file: its extension is exactly `desktop`.
pub fn is_desktop_file(path: &str) -> (b: bool)
    ensures
        b == (path_extension(path@) == Some("desktop"@)),
{
    match extension_of(path) {
        Some(ext) => text_is(ext.as_str(), "desktop"),
        None => false,
    }
}

// ---------------------------------------------------------------------------
// Gathering launchers
// ---------------------------------------------------------------------------

/// Some launcher in `apps` has the id `id`.
pub open spec fn has_id(apps: Seq<AppModel>, id: Seq<char>) -> bool {
    exists|i: int| 0 <= i < apps.len() && #[trigger] apps[i].id == id
}

/// No two launchers in `apps` share an id.
pub open spec fn ids_distinct(apps: Seq<AppModel>) -> bool {
    forall|i: int, j: int| 0 <= i < j < apps.len() ==> #[trigger] apps[i].id != #[trigger] apps[j].id
}

/// Adds `app` to `apps` unless a launcher with its id is already there; the
/// launcher found first is the one that stays.
pub fn add_application(apps: &mut Vec<XdgApplication>, app: XdgApplication) -> (added: bool)
    ensures
        added == !has_id(old(apps).deep_view(), app@.id),
        final(apps).deep_view() == (if added {
            old(apps).deep_view().push(app@)
        } else {
            old(apps).deep_view()
        }),
        ids_distinct(old(apps).deep_view()) ==> ids_distinct(final(apps).deep_view()),
{
    let ghost before = apps.deep_view();
    let mut i: usize = 0;
    while i < apps.len()
        invariant
            apps.deep_view() == before,
            i <= apps@.len(),
            forall|j: int| 0 <= j < i ==> #[trigger] before[j].id != app@.id,
        decreases apps@.len() - i,
    {
        if apps[i].id == app.id {
            assert(before[i as int].id == app@.id);
            return false;
        }
        i += 1;
    }
    apps.push(app);
    assert(apps.deep_view() =~= before.push(app@));
    true
}

/// The launchers kept from the candidates `cands` read in order, as
/// `add_application` keeps them: each candidate whose id was not kept yet.
pub open spec fn gathered(cands: Seq<AppModel>) -> Seq<AppModel>
    decreases cands.len(),
{
    if cands.len() == 0 {
        seq![]
    } else {
        let kept = gathered(cands.drop_last());
        if has_id(kept, cands.last().id) {
            kept
        } else {
            kept.push(cands.last())
        }
    }
}

/// Law: the launchers gathered never include two with one id, and an id is
/// among them exactly when some candidate has it.
pub proof fn lemma_gathered_ids(cands: Seq<AppModel>)
    ensures
        ids_distinct(gathered(cands)),
        forall|id: Seq<char>| has_id(gathered(cands), id) <==> has_id(cands, id),
    decreases cands.len(),
{
    if cands.len() > 0 {
        let prev = cands.drop_last();
        let a = cands.last();
        lemma_gathered_ids(prev);
        let kept = gathered(prev);
        assert forall|id: Seq<char>| has_id(cands, id) <==> (has_id(prev, id) || id == a.id) by {
            if has_id(cands, id) {
                let i = choose|i: int| 0 <= i < cands.len() && #[trigger] cands[i].id == id;
                if i < cands.len() - 1 {
                    assert(prev[i].id == id);
                }
            }
            if has_id(prev, id) {
                let i = choose|i: int| 0 <= i < prev.len() && #[trigger] prev[i].id == id;
                assert(cands[i].id == id);
            }
            if id == a.id {
                assert(cands[cands.len() - 1].id == id);
            }
        }
        if !has_id(kept, a.id) {
            let next = kept.push(a);
            assert forall|i: int, j: int| 0 <= i < j < next.len() implies #[trigger] next[i].id
                != #[trigger] next[j].id by {
                if j == next.len() - 1 {
                    assert(kept[i].id == next[i].id);
                }
            }
            assert forall|id: Seq<char>| has_id(next, id) <==> (has_id(kept, id) || id == a.id) by {
                if has_id(next, id) {
                    let i = choose|i: int| 0 <= i < next.len() && #[trigger] next[i].id == id;
                    if i < kept.len() {
                        assert(kept[i].id == id);
                    }
                }
                if has_id(kept, id) {
                    let i = choose|i: int| 0 <= i < kept.len() && #[trigger] kept[i].id == id;
                    assert(next[i].id == id);
                }
                if id == a.id {
                    assert(next[next.len() - 1].id == id);
                }
            }
        }
    }
}

/// The launchers kept from the candidates read in order: each candidate
/// whose id was not kept yet, so that the first launcher of an id stays.
pub fn gather_applications(cands: Vec<XdgApplication>) -> (apps: Vec<XdgApplication>)
    ensures
        apps.deep_view() == gathered(cands.deep_view()),
        ids_distinct(apps.deep_view()),
{
    let ghost all = cands.deep_view();
    let ghost cv = cands@;
    let mut apps: Vec<XdgApplication> = Vec::new();
    assert(all.take(0) =~= Seq::<AppModel>::empty());
    assert(apps.deep_view() =~= Seq::<AppModel>::empty());
    for app in it: cands
        invariant
            all.len() == cv.len(),
            forall|j: int| 0 <= j < cv.len() ==> #[trigger] all[j] == cv[j]@,
            it.seq() == cv,
            apps.deep_view() == gathered(all.take(it.index() as int)),
    {
        let ghost k = it.index() as int;
        assert(all.take(k + 1).drop_last() =~= all.take(k));
        assert(all.take(k + 1).last() == app@);
        add_application(&mut apps, app);
    }
    assert(all.take(all.len() as int) =~= all);
    proof {
        lemma_gathered_ids(all);
    }
    apps
}

/// The directories searched for `.desktop` files: the system, local and
/// Flatpak application directories, then `applications` under the user's
/// data directory (an empty path where there is none).
pub fn application_search_dirs(data_dir: Option<String>) -> (dirs: Vec<String>)
    ensures
        dirs.deep_view() == seq![
            "/usr/share/applications"@,
            "/usr/local/share/applications"@,
            "/var/lib/flatpak/exports/share/applications"@,
            match data_dir {
                Some(d) => path_join(d@, "applications"@),
                None => Seq::<char>::empty(),
            },
        ],
{
    let mut dirs: Vec<String> = Vec::new();
    dirs.push("/usr/share/applications".to_owned());
    dirs.push("/usr/local/share/applications".to_owned());
    dirs.push("/var/lib/flatpak/exports/share/applications".to_owned());
    let user = match &data_dir {
        Some(d) => join_path(d.as_str(), "applications"),
        None => String::new(),
    };
    dirs.push(user);
    assert(dirs.deep_view() =~= seq![
        "/usr/share/applications"@,
        "/usr/local/share/applications"@,
        "/var/lib/flatpak/exports/share/applications"@,
        match data_dir {
            Some(d) => path_join(d@, "applications"@),
            None => Seq::<char>::empty(),
        },
    ]);
    dirs
}

// ---------------------------------------------------------------------------
// Launchers shown where no `.desktop` files are read
// ---------------------------------------------------------------------------

/// The launchers shown on systems other than Linux, where no `.desktop`
/// files are read.
pub open spec fn preview_models() -> Seq<AppModel> {
    seq![
        AppModel {
            id: "firefox-esr"@,
            name: "Firefox ESR"@,
            command: "firefox-esr"@,
            icon: "firefox-esr"@,
            comment: "Gizlilik odaklı web tarayıcısı"@,
            categories: seq!["Network"@, "WebBrowser"@],
            desktop_file: "/usr/share/applications/firefox-esr.desktop"@,
        },
        AppModel {
            id: "code"@,
            name: "Visual Studio Code"@,
            command: "code"@,
            icon: "vscode"@,
            comment: "Kaynak Kod Düzenleyicisi"@,
            categories: seq!["Development"@, "IDE"@],
            desktop_file: "/usr/share/applications/code.desktop"@,
        },
        AppModel {
            id: "vlc"@,
            name: "VLC Media Player"@,
            command: "vlc"@,
            icon: "vlc"@,
            comment: "Evrensel Medya Yürütücüsü"@,
            categories: seq!["AudioVideo"@, "Player"@],
            desktop_file: "/usr/share/applications/vlc.desktop"@,
        },
        AppModel {
            id: "gimp"@,
            name: "GNU Image Manipulation Program"@,
            command: "gimp"@,
            icon: "gimp"@,
            comment: "Grafik ve Fotoğraf Düzenleyici"@,
            categories: seq!["Graphics"@, "2DGraphics"@],
            desktop_file: "/usr/share/applications/gimp.desktop"@,
        },
        AppModel {
            id: "htop"@,
            name: "Htop"@,
            command: "htop"@,
            icon: "htop"@,
            comment: "Terminal Sistem Süreç Gözlemcisi"@,
            categories: seq!["System"@, "Monitor"@],
            desktop_file: "/usr/share/applications/htop.desktop"@,
        },
    ]
}

fn preview_application(
    id: &str,
    name: &str,
    command: &str,
    icon: &str,
    comment: &str,
    first_category: &str,
    second_category: &str,
    desktop_file: &str,
) -> (app: XdgApplication)
    ensures
        app@ == (AppModel {
            id: id@,
            name: name@,
            command: command@,
            icon: icon@,
            comment: comment@,
            categories: seq![first_category@, second_category@],
            desktop_file: desktop_file@,
        }),
{
    let mut categories: Vec<String> = Vec::new();
    categories.push(first_category.to_owned());
    categories.push(second_category.to_owned());
    assert(categories.deep_view() =~= seq![first_category@, second_category@]);
    XdgApplication {
        id: id.to_owned(),
        name: name.to_owned(),
        command: command.to_owned(),
        icon: icon.to_owned(),
        comment: comment.to_owned(),
        categories,
        desktop_file: desktop_file.to_owned(),
    }
}

pub fn preview_applications() -> (apps: Vec<XdgApplication>)
    ensures
        apps.deep_view() == preview_models(),
{
    let mut apps: Vec<XdgApplication> = Vec::new();
    apps.push(
        preview_application(
            "firefox-esr",
            "Firefox ESR",
            "firefox-esr",
            "firefox-esr",
            "Gizlilik odaklı web tarayıcısı",
            "Network",
            "WebBrowser",
            "/usr/share/applications/firefox-esr.desktop",
        ),
    );
    apps.push(
        preview_application(
            "code",
            "Visual Studio Code",
            "code",
            "vscode",
            "Kaynak Kod Düzenleyicisi",
            "Development",
            "IDE",
            "/usr/share/applications/code.desktop",
        ),
    );
    apps.push(
        preview_application(
            "vlc",
            "VLC Media Player",
            "vlc",
            "vlc",
            "Evrensel Medya Yürütücüsü",
            "AudioVideo",
            "Player",
            "/usr/share/applications/vlc.desktop",
        ),
    );
    apps.push(
        preview_application(
            "gimp",
            "GNU Image Manipulation Program",
            "gimp",
            "gimp",
            "Grafik ve Fotoğraf Düzenleyici",
            "Graphics",
            "2DGraphics",
            "/usr/share/applications/gimp.desktop",
        ),
    );
    apps.push(
        preview_application(
            "htop",
            "Htop",
            "htop",
            "htop",
            "Terminal Sistem Süreç Gözlemcisi",
            "System",
            "Monitor",
            "/usr/share/applications/htop.desktop",
        ),
    );
    assert(apps.deep_view() =~= preview_models());
    apps
}

} // verus!
