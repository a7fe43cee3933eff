use vstd::prelude::*;
use crate::registry::{
    editor_or_default, first_match, has_project, is_first_match, lemma_first_match_exists,
    lemma_first_match_is, names_of, path_of, platform_of, removal_outcome, ProjectView,
    with_editor, with_project, without_project, SettingsView, project_dir_of,
};
use crate::command::{command_for, CommandView};
use crate::location::last_component;

verus! {

/// No two registered projects bear the same name.
pub open spec fn unique_names(s: SettingsView) -> bool {
    forall|i: int, j: int|
        0 <= i < s.projects.len() && 0 <= j < s.projects.len() && i != j ==> #[trigger] s.projects[i].name
            != #[trigger] s.projects[j].name
}

/// A project that was just registered can be found: it exists, and its
/// path, platform and editor are those it was registered with; the listing
/// gains its name at the end.
pub proof fn law_added_project_is_found(
    s: SettingsView,
    name: Seq<char>,
    path: Seq<char>,
    platform: Seq<char>,
)
    requires
        !has_project(s, name),
    ensures
        ({
            let t = with_project(s, name, path, platform);
            &&& has_project(t, name)
            &&& path_of(t, name) == path
            &&& platform_of(t, name) == platform
            &&& editor_or_default(t, name) == s.command_to_open
            &&& names_of(t) == names_of(s).push(name)
        }),
{
    let t = with_project(s, name, path, platform);
    let k = s.projects.len() as int;
    assert(t.projects[k].name == name);
    assert(is_first_match(t, name, k)) by {
        assert forall|j: int| 0 <= j < k implies #[trigger] t.projects[j].name != name by {
            assert(t.projects[j] == s.projects[j]);
        }
    }
    lemma_first_match_is(t, name, k);
    assert(names_of(t) =~= names_of(s).push(name));
}

/// Registering a project leaves what is known of every other name as it was.
pub proof fn law_add_keeps_other_projects(
    s: SettingsView,
    name: Seq<char>,
    path: Seq<char>,
    platform: Seq<char>,
    other: Seq<char>,
)
    requires
        other != name,
    ensures
        ({
            let t = with_project(s, name, path, platform);
            &&& has_project(t, other) == has_project(s, other)
            &&& has_project(s, other) ==> path_of(t, other) == path_of(s, other)
            &&& has_project(s, other) ==> platform_of(t, other) == platform_of(s, other)
            &&& editor_or_default(t, other) == editor_or_default(s, other)
        }),
{
    let t = with_project(s, name, path, platform);
    let k = s.projects.len() as int;
    if has_project(t, other) {
        let w = choose|i: int| 0 <= i < t.projects.len() && #[trigger] t.projects[i].name == other;
        assert(w != k);
        assert(s.projects[w].name == other);
    }
    if has_project(s, other) {
        let w = choose|i: int| 0 <= i < s.projects.len() && #[trigger] s.projects[i].name == other;
        assert(t.projects[w].name == other);
        lemma_first_match_exists(s, other);
        let f = first_match(s, other);
        assert(is_first_match(t, other, f)) by {
            assert forall|j: int| 0 <= j < f implies #[trigger] t.projects[j].name != other by {
                assert(t.projects[j] == s.projects[j]);
            }
        }
        lemma_first_match_is(t, other, f);
    }
}

/// Registering a project and then removing it gives back the settings as
/// they were.
pub proof fn law_delete_undoes_add(
    s: SettingsView,
    name: Seq<char>,
    path: Seq<char>,
    platform: Seq<char>,
)
    requires
        !has_project(s, name),
    ensures
        without_project(with_project(s, name, path, platform), name) == s,
{
    law_added_project_is_found(s, name, path, platform);
    let t = with_project(s, name, path, platform);
    let k = s.projects.len() as int;
    lemma_first_match_exists(t, name);
    let f = first_match(t, name);
    if f < k {
        assert(s.projects[f].name == name);
    }
    assert(without_project(t, name).projects =~= s.projects);
}

/// Registering keeps the names unique.
pub proof fn law_add_keeps_names_unique(
    s: SettingsView,
    name: Seq<char>,
    path: Seq<char>,
    platform: Seq<char>,
)
    requires
        unique_names(s),
        !has_project(s, name),
    ensures
        unique_names(with_project(s, name, path, platform)),
{
    let t = with_project(s, name, path, platform);
    let k = s.projects.len() as int;
    assert forall|i: int, j: int|
        0 <= i < t.projects.len() && 0 <= j < t.projects.len() && i != j implies #[trigger] t.projects[i].name
        != #[trigger] t.projects[j].name by {
        if i == k {
            assert(s.projects[j].name != name);
        } else if j == k {
            assert(s.projects[i].name != name);
        } else {
            assert(s.projects[i].name != s.projects[j].name);
        }
    }
}

/// Removing a project keeps the names unique, and when they are unique the
/// removed name is no longer registered; the listing loses exactly that name.
pub proof fn law_delete_removes_name(s: SettingsView, name: Seq<char>)
    requires
        unique_names(s),
        has_project(s, name),
    ensures
        unique_names(without_project(s, name)),
        !has_project(without_project(s, name), name),
        names_of(without_project(s, name)) == names_of(s).remove(first_match(s, name)),
{
    lemma_first_match_exists(s, name);
    let f = first_match(s, name);
    let t = without_project(s, name);
    assert forall|i: int| 0 <= i < t.projects.len() implies #[trigger] t.projects[i] == (if i < f {
        s.projects[i]
    } else {
        s.projects[i + 1]
    }) by {}
    assert forall|i: int, j: int|
        0 <= i < t.projects.len() && 0 <= j < t.projects.len() && i != j implies #[trigger] t.projects[i].name
        != #[trigger] t.projects[j].name by {
        let a = if i < f { i } else { i + 1 };
        let b = if j < f { j } else { j + 1 };
        assert(s.projects[a].name != s.projects[b].name);
    }
    if has_project(t, name) {
        let w = choose|i: int| 0 <= i < t.projects.len() && #[trigger] t.projects[i].name == name;
        let a = if w < f { w } else { w + 1 };
        assert(s.projects[a].name == name);
        assert(s.projects[f].name == name);
    }
    assert(names_of(t) =~= names_of(s).remove(f));
}

/// After setting the editor of a registered project, that editor is what is
/// found for it; names, paths and platforms stay as they were.
pub proof fn law_set_editor_is_read_back(s: SettingsView, name: Seq<char>, editor: Seq<char>)
    requires
        has_project(s, name),
    ensures
        ({
            let t = with_editor(s, name, editor);
            &&& has_project(t, name)
            &&& editor_or_default(t, name) == editor
            &&& names_of(t) == names_of(s)
            &&& path_of(t, name) == path_of(s, name)
            &&& platform_of(t, name) == platform_of(s, name)
            &&& t.command_to_open == s.command_to_open
        }),
{
    lemma_first_match_exists(s, name);
    let f = first_match(s, name);
    let t = with_editor(s, name, editor);
    assert(is_first_match(t, name, f)) by {
        assert forall|j: int| 0 <= j < f implies #[trigger] t.projects[j].name != name by {
            assert(t.projects[j] == s.projects[j]);
        }
    }
    lemma_first_match_is(t, name, f);
    assert(names_of(t) =~= names_of(s));
}

/// An unregistered name is found with the editor `default`.
pub proof fn law_unknown_project_has_default_editor(s: SettingsView, name: Seq<char>)
    requires
        !has_project(s, name),
    ensures
        editor_or_default(s, name) == "default"@,
{
}

/// A removal that goes through takes out one project per pick and records
/// one entry per pick.
pub proof fn law_removal_counts(orig: SettingsView, picks: Seq<usize>)
    requires
        removal_outcome(orig, picks) is Some,
    ensures
        ({
            let (t, removed) = removal_outcome(orig, picks)->Some_0;
            &&& t.projects.len() + picks.len() == orig.projects.len()
            &&& removed.len() == picks.len()
            &&& t.command_to_open == orig.command_to_open
        }),
    decreases picks.len(),
{
    if picks.len() > 0 {
        law_removal_counts(orig, picks.drop_last());
        let prev = removal_outcome(orig, picks.drop_last())->Some_0;
        let n = orig.projects[picks.last() as int].name;
        lemma_first_match_exists(prev.0, n);
    }
}

/// The projects of `ps` at the positions that `picked` does not hold, in order.
pub open spec fn kept(ps: Seq<ProjectView>, picked: spec_fn(int) -> bool) -> Seq<ProjectView>
    decreases ps.len(),
{
    if ps.len() == 0 {
        ps
    } else {
        let rest = kept(ps.drop_last(), picked);
        if picked(ps.len() - 1) {
            rest
        } else {
            rest.push(ps.last())
        }
    }
}

/// The positions that `picks` holds.
pub open spec fn picked_by(picks: Seq<usize>) -> spec_fn(int) -> bool {
    |j: int| exists|t: int| 0 <= t < picks.len() && #[trigger] picks[t] as int == j
}

proof fn lemma_kept_agree(ps: Seq<ProjectView>, p: spec_fn(int) -> bool, q: spec_fn(int) -> bool)
    requires
        forall|j: int| 0 <= j < ps.len() ==> #[trigger] p(j) == q(j),
    ensures
        kept(ps, p) == kept(ps, q),
    decreases ps.len(),
{
    if ps.len() > 0 {
        lemma_kept_agree(ps.drop_last(), p, q);
    }
}

proof fn lemma_kept_nothing(ps: Seq<ProjectView>, p: spec_fn(int) -> bool)
    requires
        forall|j: int| 0 <= j < ps.len() ==> !#[trigger] p(j),
    ensures
        kept(ps, p) == ps,
    decreases ps.len(),
{
    if ps.len() > 0 {
        lemma_kept_nothing(ps.drop_last(), p);
        assert(ps.drop_last().push(ps.last()) =~= ps);
    }
}

proof fn lemma_kept_from(ps: Seq<ProjectView>, p: spec_fn(int) -> bool)
    ensures
        forall|k: int|
            0 <= k < kept(ps, p).len() ==> exists|j: int|
                0 <= j < ps.len() && !p(j) && #[trigger] kept(ps, p)[k] == ps[j],
    decreases ps.len(),
{
    if ps.len() > 0 {
        let ps2 = ps.drop_last();
        lemma_kept_from(ps2, p);
        assert forall|k: int| 0 <= k < kept(ps, p).len() implies exists|j: int|
            0 <= j < ps.len() && !p(j) && #[trigger] kept(ps, p)[k] == ps[j] by {
            if k < kept(ps2, p).len() {
                assert(kept(ps, p)[k] == kept(ps2, p)[k]);
                let j = choose|j: int| 0 <= j < ps2.len() && !p(j) && #[trigger] kept(ps2, p)[k] == ps2[j];
                assert(ps[j] == ps2[j]);
            } else {
                assert(kept(ps, p)[k] == ps[ps.len() - 1]);
            }
        }
    }
}

proof fn lemma_kept_unique(ps: Seq<ProjectView>, p: spec_fn(int) -> bool)
    requires
        forall|a: int, b: int|
            0 <= a < ps.len() && 0 <= b < ps.len() && a != b ==> #[trigger] ps[a].name != #[trigger] ps[b].name,
    ensures
        ({
            let t = kept(ps, p);
            forall|a: int, b: int|
                0 <= a < t.len() && 0 <= b < t.len() && a != b ==> #[trigger] t[a].name != #[trigger] t[b].name
        }),
    decreases ps.len(),
{
    if ps.len() > 0 {
        let ps2 = ps.drop_last();
        lemma_kept_unique(ps2, p);
        lemma_kept_from(ps2, p);
        let t2 = kept(ps2, p);
        let t = kept(ps, p);
        if !p(ps.len() - 1) {
            assert forall|a: int, b: int|
                0 <= a < t.len() && 0 <= b < t.len() && a != b implies #[trigger] t[a].name != #[trigger] t[b].name by {
                if a == t2.len() {
                    let j = choose|j: int| 0 <= j < ps2.len() && !p(j) && #[trigger] t2[b] == ps2[j];
                    assert(ps[j] == ps2[j]);
                    assert(ps[j].name != ps[ps.len() - 1].name);
                } else if b == t2.len() {
                    let j = choose|j: int| 0 <= j < ps2.len() && !p(j) && #[trigger] t2[a] == ps2[j];
                    assert(ps[j] == ps2[j]);
                    assert(ps[j].name != ps[ps.len() - 1].name);
                } else {
                    assert(t[a] == t2[a] && t[b] == t2[b]);
                }
            }
        }
    }
}

/// Taking out the project at an unpicked position `i` is picking `i` too.
proof fn lemma_kept_take_out(
    ps: Seq<ProjectView>,
    p: spec_fn(int) -> bool,
    q: spec_fn(int) -> bool,
    i: int,
) -> (k: int)
    requires
        0 <= i < ps.len(),
        !p(i),
        forall|j: int| #[trigger] q(j) == (p(j) || j == i),
    ensures
        0 <= k < kept(ps, p).len(),
        kept(ps, p)[k] == ps[i],
        kept(ps, p).remove(k) == kept(ps, q),
    decreases ps.len(),
{
    let ps2 = ps.drop_last();
    let last = ps.len() - 1;
    if i == last {
        lemma_kept_agree(ps2, p, q);
        let k = kept(ps2, p).len() as int;
        assert(kept(ps, p).remove(k) =~= kept(ps2, p));
        k
    } else {
        let k = lemma_kept_take_out(ps2, p, q, i);
        assert(ps2[i] == ps[i]);
        assert(q(last) == p(last));
        if !p(last) {
            assert(kept(ps, p).remove(k) =~= kept(ps2, p).remove(k).push(ps.last()));
        }
        k
    }
}

/// With distinct names, and picks that are distinct positions of the listing,
/// a removal goes through: it leaves exactly the projects at the positions not
/// picked, in their order, and records, pick by pick, the name and the path of
/// the picked project.
pub proof fn law_removal_takes_picked_positions(orig: SettingsView, picks: Seq<usize>)
    requires
        unique_names(orig),
        picks.no_duplicates(),
        forall|t: int| 0 <= t < picks.len() ==> #[trigger] picks[t] < orig.projects.len(),
    ensures
        removal_outcome(orig, picks) == Some(
            (
                SettingsView {
                    command_to_open: orig.command_to_open,
                    projects: kept(orig.projects, picked_by(picks)),
                },
                picks.map_values(
                    |i: usize| (orig.projects[i as int].name, orig.projects[i as int].path),
                ),
            ),
        ),
    decreases picks.len(),
{
    let ps = orig.projects;
    let f = |i: usize| (orig.projects[i as int].name, orig.projects[i as int].path);
    if picks.len() == 0 {
        lemma_kept_nothing(ps, picked_by(picks));
        assert(picks.map_values(f) =~= Seq::<(Seq<char>, Seq<char>)>::empty());
        assert(SettingsView { command_to_open: orig.command_to_open, projects: ps } == orig);
    } else {
        let picks2 = picks.drop_last();
        assert(picks2.no_duplicates()) by {
            assert forall|a: int, b: int|
                0 <= a < picks2.len() && 0 <= b < picks2.len() && a != b implies picks2[a] != picks2[b] by {
                assert(picks2[a] == picks[a] && picks2[b] == picks[b]);
            }
        }
        assert forall|t: int| 0 <= t < picks2.len() implies #[trigger] picks2[t] < orig.projects.len() by {
            assert(picks2[t] == picks[t]);
        }
        law_removal_takes_picked_positions(orig, picks2);
        let i = picks.last() as int;
        let p = picked_by(picks2);
        let q = picked_by(picks);
        assert(!p(i)) by {
            if p(i) {
                let t = choose|t: int| 0 <= t < picks2.len() && #[trigger] picks2[t] as int == i;
                assert(picks[t] == picks[picks.len() - 1]);
            }
        }
        assert forall|j: int| #[trigger] q(j) == (p(j) || j == i) by {
            if q(j) {
                let t = choose|t: int| 0 <= t < picks.len() && #[trigger] picks[t] as int == j;
                if t < picks2.len() {
                    assert(picks2[t] == picks[t]);
                }
            }
            if p(j) {
                let t = choose|t: int| 0 <= t < picks2.len() && #[trigger] picks2[t] as int == j;
                assert(picks[t] == picks2[t]);
            }
            if j == i {
                assert(picks[picks.len() - 1] as int == j);
            }
        }
        let cur = kept(ps, p);
        let k = lemma_kept_take_out(ps, p, q, i);
        lemma_kept_unique(ps, p);
        let n = ps[i].name;
        let prev = SettingsView { command_to_open: orig.command_to_open, projects: cur };
        assert(prev.projects[k].name == n);
        assert(has_project(prev, n));
        assert(is_first_match(prev, n, k)) by {
            assert forall|j: int| 0 <= j < k implies #[trigger] prev.projects[j].name != n by {
                assert(cur[j].name != cur[k].name);
            }
        }
        lemma_first_match_is(prev, n, k);
        assert(is_first_match(orig, n, i)) by {
            assert forall|j: int| 0 <= j < i implies #[trigger] orig.projects[j].name != n by {
                assert(ps[j].name != ps[i].name);
            }
        }
        lemma_first_match_is(orig, n, i);
        assert(picks.map_values(f) =~= picks2.map_values(f).push(f(picks.last())));
        assert(without_project(prev, n).projects == kept(ps, q));
    }
}

/// Setting the editor of a project changes the editor of the first project of
/// that name and nothing else: every other project stays exactly as it was,
/// that project keeps its name, path and platform, and the default command is
/// unchanged. Setting the editor of an unregistered name changes nothing.
pub proof fn law_set_editor_touches_one_project(s: SettingsView, name: Seq<char>, editor: Seq<char>)
    ensures
        ({
            let t = with_editor(s, name, editor);
            &&& t.command_to_open == s.command_to_open
            &&& t.projects.len() == s.projects.len()
            &&& has_project(s, name) ==> {
                let i = first_match(s, name);
                &&& t.projects[i].editor == editor
                &&& t.projects[i].name == s.projects[i].name
                &&& t.projects[i].path == s.projects[i].path
                &&& t.projects[i].platform == s.projects[i].platform
                &&& forall|j: int|
                    0 <= j < s.projects.len() && j != i ==> #[trigger] t.projects[j] == s.projects[j]
            }
            &&& !has_project(s, name) ==> t == s
        }),
{
    if has_project(s, name) {
        lemma_first_match_exists(s, name);
    }
}

/// The directory of a project made in `cwd` is `cwd`, a slash, and the name of
/// the project character for character.
pub proof fn law_project_dir_ends_with_name(cwd: Seq<char>, name: Seq<char>)
    ensures
        ({
            let d = project_dir_of(cwd, name);
            &&& d.len() == cwd.len() + 1 + name.len()
            &&& d.subrange(0, cwd.len() as int) == cwd
            &&& d[cwd.len() as int] == '/'
            &&& d.subrange(cwd.len() + 1int, d.len() as int) == name
        }),
{
    let d = project_dir_of(cwd, name);
    reveal_strlit("/");
    assert(d.subrange(0, cwd.len() as int) =~= cwd);
    assert(d.subrange(cwd.len() + 1int, d.len() as int) =~= name);
}

/// A word that is none of the command words `open`, `init`, `add`, `save`,
/// `remove`, `seteditor`, `run`, `build`, `interact`, `purge` is an unknown
/// command, carrying that very word; and an unknown command only ever carries
/// the word it was read from.
pub proof fn law_other_words_are_unknown(word: Seq<char>)
    ensures
        (word != "open"@ && word != "init"@ && word != "add"@ && word != "save"@ && word
            != "remove"@ && word != "seteditor"@ && word != "run"@ && word != "build"@ && word
            != "interact"@ && word != "purge"@) ==> command_for(Some(word)) == CommandView::Unknown(
            word,
        ),
        command_for(Some(word)) matches CommandView::Unknown(w) ==> w == word,
        command_for(None) == CommandView::Open,
        word == "open"@ ==> command_for(Some(word)) == CommandView::Open,
        word == "init"@ ==> command_for(Some(word)) == CommandView::Init,
        word == "add"@ ==> command_for(Some(word)) == CommandView::Add,
        word == "save"@ ==> command_for(Some(word)) == CommandView::Add,
        word == "remove"@ ==> command_for(Some(word)) == CommandView::Remove,
        word == "seteditor"@ ==> command_for(Some(word)) == CommandView::SetEditor,
        word == "run"@ ==> command_for(Some(word)) == CommandView::Run,
        word == "build"@ ==> command_for(Some(word)) == CommandView::Build,
        word == "interact"@ ==> command_for(Some(word)) == CommandView::Interact,
        word == "purge"@ ==> command_for(Some(word)) == CommandView::Purge,
{
    reveal_strlit("open");
    reveal_strlit("init");
    reveal_strlit("add");
    reveal_strlit("save");
    reveal_strlit("remove");
    reveal_strlit("seteditor");
    reveal_strlit("run");
    reveal_strlit("build");
    reveal_strlit("interact");
    reveal_strlit("purge");
    assert("open"@[0] == 'o' && "init"@[0] == 'i' && "save"@[0] == 's');
    assert("build"@[0] == 'b' && "purge"@[0] == 'p' && "add"@[0] == 'a' && "run"@[0] == 'r');
    assert("open"@.len() == 4 && "init"@.len() == 4 && "add"@.len() == 3 && "save"@.len() == 4);
    assert("remove"@.len() == 6 && "seteditor"@.len() == 9 && "run"@.len() == 3);
    assert("build"@.len() == 5 && "interact"@.len() == 8 && "purge"@.len() == 5);
}

/// Deleting a project takes out exactly the first project of that name: the
/// projects before it stay in place, those after it move up by one, and the
/// default command is unchanged.
pub proof fn law_delete_keeps_other_projects(s: SettingsView, name: Seq<char>)
    requires
        has_project(s, name),
    ensures
        ({
            let t = without_project(s, name);
            let i = first_match(s, name);
            &&& s.projects[i].name == name
            &&& t.command_to_open == s.command_to_open
            &&& t.projects.len() + 1 == s.projects.len()
            &&& forall|j: int| 0 <= j < i ==> #[trigger] t.projects[j] == s.projects[j]
            &&& forall|j: int| i <= j < t.projects.len() ==> #[trigger] t.projects[j] == s.projects[j + 1]
        }),
{
    lemma_first_match_exists(s, name);
}

/// The last component of a path is the longest end of it that holds no `/`:
/// it is an end of the path, it holds no `/`, and it is either the whole path
/// or comes right after a `/`.
pub proof fn law_last_component_follows_last_slash(p: Seq<char>)
    ensures
        ({
            let c = last_component(p);
            &&& c.len() <= p.len()
            &&& c == p.subrange(p.len() - c.len(), p.len() as int)
            &&& forall|k: int| 0 <= k < c.len() ==> #[trigger] c[k] != '/'
            &&& c.len() == p.len() || p[p.len() - c.len() - 1] == '/'
        }),
    decreases p.len(),
{
    if p.len() > 0 && p.last() != '/' {
        law_last_component_follows_last_slash(p.drop_last());
        let c2 = last_component(p.drop_last());
        let c = last_component(p);
        assert(c =~= p.subrange(p.len() - c.len(), p.len() as int));
        assert forall|k: int| 0 <= k < c.len() implies #[trigger] c[k] != '/' by {
            if k < c2.len() {
                assert(c[k] == c2[k]);
            }
        }
        if c2.len() < p.len() - 1 {
            assert(p[p.len() - c.len() - 1] == p.drop_last()[p.drop_last().len() - c2.len() - 1]);
        }
    } else if p.len() > 0 {
        assert(last_component(p) =~= p.subrange(p.len() as int, p.len() as int));
    }
}

} // verus!
